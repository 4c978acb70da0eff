//! Network interfaces: their error counts, and the history of their byte
//! counters while they are plotted.

use crate::history::{lemma_newest_of_pushed, newest, Data, HISTORY_LENGTH};
use crate::identity::{
    first_position, holds_all, lemma_first_position_found, lemma_first_position_holds,
    lemma_first_position_missing,
};
use vstd::prelude::*;

verus! {

/// The least upper edge of the network plot, in bytes.
pub const NETWORK_FLOOR: u64 = 100;

/// What the network plot shows above its largest value, in hundredths of it.
pub const NETWORK_MARGIN: u8 = 19;

/// What is read of one network interface in one round.
pub struct NetworkReading {
    pub interface_name: String,
    pub mac_address: [u8; 6],
    /// The bytes received so far.
    pub received: u64,
    /// The bytes transmitted so far.
    pub transmitted: u64,
    pub total_errors_on_received: u64,
    pub total_errors_on_transmitted: u64,
}

/// The two histories of a plotted interface, oldest sample first.
pub struct NetworkDisplayView {
    pub received_plot_points: Seq<u64>,
    pub transmitted_plot_points: Seq<u64>,
}

/// What a network interface's state holds.
pub struct NetworkView {
    /// The interface's number in the display, counted from one.
    pub number: usize,
    pub interface_name: Seq<char>,
    /// The hardware address, by which the interface is found again.
    pub mac_address: Seq<u8>,
    pub is_display_on_plot: bool,
    pub network_display: Option<NetworkDisplayView>,
    pub total_errors_on_received: u64,
    pub total_errors_on_transmitted: u64,
}

/// The received bytes of a display that may not be kept.
pub open spec fn received_held(display: Option<NetworkDisplayView>) -> Seq<u64> {
    match display {
        Some(display) => display.received_plot_points,
        None => Seq::empty(),
    }
}

/// The transmitted bytes of a display that may not be kept.
pub open spec fn transmitted_held(display: Option<NetworkDisplayView>) -> Seq<u64> {
    match display {
        Some(display) => display.transmitted_plot_points,
        None => Seq::empty(),
    }
}

impl NetworkView {
    /// The state of the interface listed at `position` when it is first
    /// seen: plotted, without a history, without errors.
    pub open spec fn seeded(reading: NetworkReading, position: int) -> NetworkView {
        NetworkView {
            number: (position + 1) as usize,
            interface_name: reading.interface_name@,
            mac_address: reading.mac_address@,
            is_display_on_plot: true,
            network_display: None,
            total_errors_on_received: 0,
            total_errors_on_transmitted: 0,
        }
    }

    /// The state after a round in which the interface was read. The error
    /// counts are taken over. A plotted interface takes the two byte
    /// counters, as they are read, into its histories.
    pub open spec fn refreshed(self, reading: NetworkReading) -> NetworkView {
        NetworkView {
            total_errors_on_received: reading.total_errors_on_received,
            total_errors_on_transmitted: reading.total_errors_on_transmitted,
            network_display: if self.is_display_on_plot {
                Some(
                    NetworkDisplayView {
                        received_plot_points: newest(
                            received_held(self.network_display).push(reading.received),
                            HISTORY_LENGTH as nat,
                        ),
                        transmitted_plot_points: newest(
                            transmitted_held(self.network_display).push(reading.transmitted),
                            HISTORY_LENGTH as nat,
                        ),
                    },
                )
            } else {
                None
            },
            ..self
        }
    }

    /// The state after the interface's plot was switched on or off.
    /// Switching it off drops the histories at once.
    pub open spec fn displayed(self, on: bool) -> NetworkView {
        NetworkView {
            is_display_on_plot: on,
            network_display: if on {
                self.network_display
            } else {
                None
            },
            ..self
        }
    }
}

/// The two histories of a plotted interface.
pub struct NetworkDisplay {
    received_plot_points: Data<u64>,
    transmitted_plot_points: Data<u64>,
}

impl View for NetworkDisplay {
    type V = NetworkDisplayView;

    closed spec fn view(&self) -> NetworkDisplayView {
        NetworkDisplayView {
            received_plot_points: self.received_plot_points@,
            transmitted_plot_points: self.transmitted_plot_points@,
        }
    }
}

impl NetworkDisplay {
    #[verifier::type_invariant]
    spec fn histories_sized(&self) -> bool {
        &&& self.received_plot_points.capacity() == HISTORY_LENGTH
        &&& self.transmitted_plot_points.capacity() == HISTORY_LENGTH
    }

    pub fn received_plot_points(&self) -> (points: &Data<u64>)
        ensures
            points@ == self@.received_plot_points,
    {
        &self.received_plot_points
    }

    pub fn transmitted_plot_points(&self) -> (points: &Data<u64>)
        ensures
            points@ == self@.transmitted_plot_points,
    {
        &self.transmitted_plot_points
    }
}

/// A network interface as the display shows it.
pub struct NetworkInformations {
    number: usize,
    interface_name: String,
    mac_address: [u8; 6],
    is_display_on_plot: bool,
    network_display: Option<NetworkDisplay>,
    total_errors_on_received: u64,
    total_errors_on_transmitted: u64,
}

impl View for NetworkInformations {
    type V = NetworkView;

    closed spec fn view(&self) -> NetworkView {
        NetworkView {
            number: self.number,
            interface_name: self.interface_name@,
            mac_address: self.mac_address@,
            is_display_on_plot: self.is_display_on_plot,
            network_display: match self.network_display {
                Some(display) => Some(display@),
                None => None,
            },
            total_errors_on_received: self.total_errors_on_received,
            total_errors_on_transmitted: self.total_errors_on_transmitted,
        }
    }
}

/// What each of `networks` holds.
pub open spec fn network_views(networks: Seq<NetworkInformations>) -> Seq<NetworkView> {
    Seq::new(networks.len(), |i: int| networks[i]@)
}

/// The hardware addresses of `networks`, in their order.
pub open spec fn addresses(networks: Seq<NetworkView>) -> Seq<Seq<u8>> {
    Seq::new(networks.len(), |i: int| networks[i].mac_address)
}

/// The hardware addresses that `readings` report, in their order.
pub open spec fn reported_addresses(readings: Seq<NetworkReading>) -> Seq<Seq<u8>> {
    Seq::new(readings.len(), |i: int| readings[i].mac_address@)
}

/// The interfaces as they are first seen, numbered from one in their order.
pub open spec fn seeded_all(readings: Seq<NetworkReading>) -> Seq<NetworkView> {
    Seq::new(readings.len(), |i: int| NetworkView::seeded(readings[i], i))
}

/// The interfaces after a round: each is refreshed by the first reading
/// that reports its hardware address.
pub open spec fn refreshed_all(networks: Seq<NetworkView>, readings: Seq<NetworkReading>) -> Seq<
    NetworkView,
> {
    Seq::new(
        networks.len(),
        |i: int|
            match first_position(reported_addresses(readings), networks[i].mac_address) {
                Some(j) => networks[i].refreshed(readings[j]),
                None => networks[i],
            },
    )
}

/// The largest of `values` and `floor`.
pub open spec fn largest_of(values: Seq<u64>, floor: int) -> int
    decreases values.len(),
{
    if values.len() == 0 {
        floor
    } else {
        let rest = largest_of(values.drop_last(), floor);
        if values.last() > rest {
            values.last() as int
        } else {
            rest
        }
    }
}

/// The largest value in the histories of the plotted interfaces among
/// `networks`, and at least `floor`.
pub open spec fn largest_plotted(networks: Seq<NetworkView>, floor: int) -> int
    decreases networks.len(),
{
    if networks.len() == 0 {
        floor
    } else {
        let rest = largest_plotted(networks.drop_last(), floor);
        let last = networks.last();
        if last.is_display_on_plot && last.network_display is Some {
            largest_of(
                last.network_display->0.transmitted_plot_points,
                largest_of(last.network_display->0.received_plot_points, rest),
            )
        } else {
            rest
        }
    }
}

/// The bound of the network plot: the largest value that it shows, and at
/// least the floor.
pub open spec fn plot_bound(networks: Seq<NetworkView>) -> int {
    largest_plotted(networks, NETWORK_FLOOR as int)
}

fn raise_to(points: &Data<u64>, floor: u64) -> (bound: u64)
    ensures
        bound == largest_of(points@, floor as int),
{
    let mut bound: u64 = floor;
    for value in it: points.data_iter()
        invariant
            it.seq() == points@.as_ref(),
            bound == largest_of(points@.take(it.index()), floor as int),
    {
        assert(points@.take(it.index() + 1).drop_last() =~= points@.take(it.index()));
        if *value > bound {
            bound = *value;
        }
    }
    assert(points@.take(points@.len() as int) =~= points@);
    bound
}

fn same_address(a: &[u8; 6], b: &[u8; 6]) -> (same: bool)
    ensures
        same == (a@ == b@),
{
    let mut i: usize = 0;
    while i < 6
        invariant
            i <= 6,
            forall|j: int| 0 <= j < i ==> a@[j] == b@[j],
        decreases 6 - i,
    {
        if a[i] != b[i] {
            return false;
        }
        i = i + 1;
    }
    assert(a@ =~= b@);
    true
}

impl NetworkInformations {
    /// The states of the interfaces that `networks` reports, in their order.
    pub fn new(networks: &Vec<NetworkReading>) -> (data: Vec<Self>)
        ensures
            network_views(data@) == seeded_all(networks@),
    {
        let mut data: Vec<NetworkInformations> = Vec::new();
        let mut i: usize = 0;
        while i < networks.len()
            invariant
                i <= networks.len(),
                data@.len() == i,
                forall|j: int| 0 <= j < i ==> (#[trigger] data@[j])@ == seeded_all(networks@)[j],
            decreases networks.len() - i,
        {
            data.push(
                NetworkInformations {
                    number: i + 1,
                    interface_name: networks[i].interface_name.clone(),
                    mac_address: networks[i].mac_address,
                    is_display_on_plot: true,
                    network_display: None,
                    total_errors_on_received: 0,
                    total_errors_on_transmitted: 0,
                },
            );
            i = i + 1;
        }
        assert(network_views(data@) =~= seeded_all(networks@));
        data
    }

    /// Takes in what one round reads of the interface.
    pub fn refresh(&mut self, reading: &NetworkReading)
        ensures
            final(self)@ == old(self)@.refreshed(*reading),
    {
        self.total_errors_on_received = reading.total_errors_on_received;
        self.total_errors_on_transmitted = reading.total_errors_on_transmitted;
        if self.is_display_on_plot {
            let mut kept: Option<NetworkDisplay> = None;
            std::mem::swap(&mut kept, &mut self.network_display);
            let (mut received, mut transmitted) = match kept {
                Some(display) => {
                    proof {
                        use_type_invariant(&display);
                    }
                    (display.received_plot_points, display.transmitted_plot_points)
                },
                None => (Data::new(HISTORY_LENGTH), Data::new(HISTORY_LENGTH)),
            };
            received.push(reading.received);
            transmitted.push(reading.transmitted);
            self.network_display = Some(
                NetworkDisplay {
                    received_plot_points: received,
                    transmitted_plot_points: transmitted,
                },
            );
        } else {
            self.network_display = None;
        }
    }

    /// Switches the interface's plot on or off.
    pub fn set_display_on_plot(&mut self, on: bool)
        ensures
            final(self)@ == old(self)@.displayed(on),
    {
        self.is_display_on_plot = on;
        if !on {
            self.network_display = None;
        }
    }

    pub fn number(&self) -> (number: usize)
        ensures
            number == self@.number,
    {
        self.number
    }

    pub fn interface_name(&self) -> (name: &String)
        ensures
            name@ == self@.interface_name,
    {
        &self.interface_name
    }

    pub fn mac_address(&self) -> (address: [u8; 6])
        ensures
            address@ == self@.mac_address,
    {
        self.mac_address
    }

    pub fn is_display_on_plot(&self) -> (on: bool)
        ensures
            on == self@.is_display_on_plot,
    {
        self.is_display_on_plot
    }

    pub fn network_display(&self) -> (display: Option<&NetworkDisplay>)
        ensures
            match display {
                Some(display) => self@.network_display == Some(display@),
                None => self@.network_display is None,
            },
    {
        self.network_display.as_ref()
    }

    pub fn total_errors_on_received(&self) -> (errors: u64)
        ensures
            errors == self@.total_errors_on_received,
    {
        self.total_errors_on_received
    }

    pub fn total_errors_on_transmitted(&self) -> (errors: u64)
        ensures
            errors == self@.total_errors_on_transmitted,
    {
        self.total_errors_on_transmitted
    }
}

/// The position of the first reading that reports `address`.
pub fn find_network(readings: &Vec<NetworkReading>, address: &[u8; 6]) -> (found: Option<usize>)
    ensures
        match found {
            Some(i) => first_position(reported_addresses(readings@), address@) == Some(i as int),
            None => first_position(reported_addresses(readings@), address@) is None,
        },
{
    let ghost reported = reported_addresses(readings@);
    let mut i: usize = 0;
    while i < readings.len()
        invariant
            i <= readings.len(),
            reported == reported_addresses(readings@),
            forall|j: int| 0 <= j < i ==> reported[j] != address@,
        decreases readings.len() - i,
    {
        if same_address(&readings[i].mac_address, address) {
            proof {
                assert(reported[i as int] == address@);
                lemma_first_position_found(reported, address@, i as int);
            }
            return Some(i);
        }
        i = i + 1;
    }
    proof {
        lemma_first_position_missing(reported, address@);
    }
    None
}

/// Whether `readings` report every interface that is known among
/// `networks`.
pub fn tracks_networks(networks: &Vec<NetworkInformations>, readings: &Vec<NetworkReading>) -> (all:
    bool)
    ensures
        all == holds_all(reported_addresses(readings@), addresses(network_views(networks@))),
{
    let ghost reported = reported_addresses(readings@);
    let ghost known = addresses(network_views(networks@));
    let mut i: usize = 0;
    while i < networks.len()
        invariant
            i <= networks.len(),
            reported == reported_addresses(readings@),
            known == addresses(network_views(networks@)),
            forall|j: int| 0 <= j < i ==> reported.contains(#[trigger] known[j]),
        decreases networks.len() - i,
    {
        proof {
            lemma_first_position_holds(reported, known[i as int]);
        }
        if find_network(readings, &networks[i].mac_address).is_none() {
            assert(!reported.contains(known[i as int]));
            return false;
        }
        i = i + 1;
    }
    true
}

/// Takes in what one round reads of the network interfaces: each interface
/// is refreshed by the first reading that reports its hardware address.
pub fn update_networks(networks: &mut Vec<NetworkInformations>, readings: &Vec<NetworkReading>)
    requires
        holds_all(reported_addresses(readings@), addresses(network_views(old(networks)@))),
    ensures
        network_views(final(networks)@) == refreshed_all(network_views(old(networks)@), readings@),
{
    let ghost before = network_views(networks@);
    let mut i: usize = 0;
    while i < networks.len()
        invariant
            i <= networks.len(),
            networks@.len() == before.len(),
            forall|j: int| 0 <= j < i ==> (#[trigger] networks@[j])@ == refreshed_all(before, readings@)[j],
            forall|j: int| i <= j < before.len() ==> (#[trigger] networks@[j])@ == before[j],
        decreases networks.len() - i,
    {
        match find_network(readings, &networks[i].mac_address) {
            Some(at) => {
                proof {
                    lemma_first_position_holds(reported_addresses(readings@), before[i as int].mac_address);
                }
                networks[i].refresh(&readings[at]);
            },
            None => {},
        }
        i = i + 1;
    }
    assert(network_views(networks@) =~= refreshed_all(before, readings@));
}

/// The bound of the network plot: the largest value in the histories of
/// the plotted interfaces, and at least the floor.
pub fn network_plot_bound(networks: &Vec<NetworkInformations>) -> (bound: u64)
    ensures
        bound == plot_bound(network_views(networks@)),
{
    let mut bound: u64 = NETWORK_FLOOR;
    let mut i: usize = 0;
    while i < networks.len()
        invariant
            i <= networks.len(),
            bound == largest_plotted(network_views(networks@).take(i as int), NETWORK_FLOOR as int),
        decreases networks.len() - i,
    {
        assert(network_views(networks@).take(i + 1).drop_last() =~= network_views(networks@).take(
            i as int,
        ));
        if networks[i].is_display_on_plot {
            match &networks[i].network_display {
                Some(display) => {
                    bound = raise_to(&display.received_plot_points, bound);
                    bound = raise_to(&display.transmitted_plot_points, bound);
                },
                None => {},
            }
        }
        i = i + 1;
    }
    assert(network_views(networks@).take(i as int) =~= network_views(networks@));
    bound
}

/// The bytes received that `readings` report, in their order.
pub open spec fn received_counters(readings: Seq<NetworkReading>) -> Seq<u64> {
    Seq::new(readings.len(), |i: int| readings[i].received)
}

/// The bytes transmitted that `readings` report, in their order.
pub open spec fn transmitted_counters(readings: Seq<NetworkReading>) -> Seq<u64> {
    Seq::new(readings.len(), |i: int| readings[i].transmitted)
}

/// The interface after the rounds in which `readings` were read of it, one
/// after the other.
pub open spec fn refreshed_through(network: NetworkView, readings: Seq<NetworkReading>) -> NetworkView
    decreases readings.len(),
{
    if readings.len() == 0 {
        network
    } else {
        refreshed_through(network, readings.drop_last()).refreshed(readings.last())
    }
}

/// The histories of a plotted interface hold the byte counters themselves,
/// as each round read them, and no differences: after some rounds, the
/// newest of the counters read, in the order of the rounds.
pub proof fn lemma_histories_hold_counters(network: NetworkView, readings: Seq<NetworkReading>)
    requires
        network.is_display_on_plot,
        network.network_display is None,
        readings.len() > 0,
    ensures
        refreshed_through(network, readings).is_display_on_plot,
        refreshed_through(network, readings).network_display == Some(
            NetworkDisplayView {
                received_plot_points: newest(received_counters(readings), HISTORY_LENGTH as nat),
                transmitted_plot_points: newest(
                    transmitted_counters(readings),
                    HISTORY_LENGTH as nat,
                ),
            },
        ),
    decreases readings.len(),
{
    let earlier = readings.drop_last();
    let last = readings.last();
    assert(received_counters(earlier).push(last.received) =~= received_counters(readings));
    assert(transmitted_counters(earlier).push(last.transmitted) =~= transmitted_counters(readings));
    if earlier.len() == 0 {
        assert(refreshed_through(network, earlier) == network);
        assert(received_counters(earlier) =~= Seq::<u64>::empty());
        assert(transmitted_counters(earlier) =~= Seq::<u64>::empty());
    } else {
        lemma_histories_hold_counters(network, earlier);
        lemma_newest_of_pushed(received_counters(earlier), HISTORY_LENGTH as nat, last.received);
        lemma_newest_of_pushed(
            transmitted_counters(earlier),
            HISTORY_LENGTH as nat,
            last.transmitted,
        );
    }
}

/// An interface whose plot is switched off and on again has lost its
/// histories: no earlier sample comes back, and the next round starts new
/// histories with its counters alone.
pub proof fn lemma_network_history_is_reset(network: NetworkView, reading: NetworkReading)
    ensures
        network.displayed(false).displayed(true).network_display is None,
        network.displayed(false).displayed(true).refreshed(reading).network_display == Some(
            NetworkDisplayView {
                received_plot_points: seq![reading.received],
                transmitted_plot_points: seq![reading.transmitted],
            },
        ),
{
    let again = network.displayed(false).displayed(true);
    assert(received_held(again.network_display).push(reading.received) =~= seq![reading.received]);
    assert(transmitted_held(again.network_display).push(reading.transmitted) =~= seq![
        reading.transmitted,
    ]);
    assert(newest(seq![reading.received], HISTORY_LENGTH as nat) =~= seq![reading.received]);
    assert(newest(seq![reading.transmitted], HISTORY_LENGTH as nat) =~= seq![reading.transmitted]);
}

} // verus!
