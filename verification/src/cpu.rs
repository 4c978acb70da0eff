//! Processor cores: the use of each one, and its history while it is plotted.

use crate::history::{newest, Data, HISTORY_LENGTH};
use crate::identity::{
    first_position, holds_all, lemma_first_position_found, lemma_first_position_holds,
    lemma_first_position_missing,
};
use vstd::prelude::*;

verus! {

/// What is read of one core in one round.
pub struct CpuReading {
    pub name: String,
    /// The core's use, in thousandths of a percent.
    pub usage: u64,
}

/// The samples of a history that may not be kept; none where it is not.
pub open spec fn held<T>(points: Option<Seq<T>>) -> Seq<T> {
    match points {
        Some(samples) => samples,
        None => Seq::empty(),
    }
}

/// What a core's state holds.
pub struct CpuView {
    /// The core's name, by which it is found again.
    pub name: Seq<char>,
    pub usage: u64,
    pub color_index: u128,
    pub is_display_on_plot: bool,
    /// The history of the core's use, oldest first, kept while the core is
    /// plotted.
    pub plot_points: Option<Seq<u64>>,
}

impl CpuView {
    /// The state of a core that is not tracked yet: not plotted, without a
    /// history.
    pub open spec fn seeded(reading: CpuReading, color_index: u128) -> CpuView {
        CpuView {
            name: reading.name@,
            usage: reading.usage,
            color_index,
            is_display_on_plot: false,
            plot_points: None,
        }
    }

    /// The state after a round in which the core's use was read. A plotted
    /// core takes the reading into its history, which starts with it where
    /// there was none; a core that is not plotted keeps no history.
    pub open spec fn refreshed(self, usage: u64) -> CpuView {
        CpuView {
            usage,
            plot_points: if self.is_display_on_plot {
                Some(newest(held(self.plot_points).push(usage), HISTORY_LENGTH as nat))
            } else {
                None
            },
            ..self
        }
    }

    /// The state after the core's plot was switched on or off. Switching it
    /// off drops the history at once.
    pub open spec fn displayed(self, on: bool) -> CpuView {
        CpuView {
            is_display_on_plot: on,
            plot_points: if on {
                self.plot_points
            } else {
                None
            },
            ..self
        }
    }
}

/// A core as the display shows it.
pub struct CpuData {
    name: String,
    usage: u64,
    color_index: u128,
    is_display_on_plot: bool,
    plot_points: Option<Data<u64>>,
}

impl View for CpuData {
    type V = CpuView;

    closed spec fn view(&self) -> CpuView {
        CpuView {
            name: self.name@,
            usage: self.usage,
            color_index: self.color_index,
            is_display_on_plot: self.is_display_on_plot,
            plot_points: match self.plot_points {
                Some(points) => Some(points@),
                None => None,
            },
        }
    }
}

/// What each of `cpus` holds.
pub open spec fn cpu_views(cpus: Seq<CpuData>) -> Seq<CpuView> {
    Seq::new(cpus.len(), |i: int| cpus[i]@)
}

/// The names of `cpus`, in their order.
pub open spec fn cpu_names(cpus: Seq<CpuView>) -> Seq<Seq<char>> {
    Seq::new(cpus.len(), |i: int| cpus[i].name)
}

/// The names that `readings` report, in their order.
pub open spec fn reported_names(readings: Seq<CpuReading>) -> Seq<Seq<char>> {
    Seq::new(readings.len(), |i: int| readings[i].name@)
}

/// The cores after a round: each reading, in its turn, refreshes the first
/// core of its name.
pub open spec fn refreshed_all(cpus: Seq<CpuView>, readings: Seq<CpuReading>) -> Seq<CpuView>
    decreases readings.len(),
{
    if readings.len() == 0 {
        cpus
    } else {
        let earlier = refreshed_all(cpus, readings.drop_last());
        match first_position(cpu_names(earlier), readings.last().name@) {
            Some(i) => earlier.update(i, earlier[i].refreshed(readings.last().usage)),
            None => earlier,
        }
    }
}

/// The cores as they are first seen: none plotted, the colours two apart
/// from `initial_auto_color_index` on.
pub open spec fn seeded_all(readings: Seq<CpuReading>, initial_auto_color_index: usize) -> Seq<
    CpuView,
> {
    Seq::new(
        readings.len(),
        |i: int| CpuView::seeded(readings[i], (initial_auto_color_index + 2 * i) as u128),
    )
}

impl CpuData {
    #[verifier::type_invariant]
    spec fn history_sized(&self) -> bool {
        self.plot_points matches Some(points) ==> points.capacity() == HISTORY_LENGTH
    }

    /// The states of the cores that `cpus` reports, in their order.
    pub fn new(cpus: &Vec<CpuReading>, initial_auto_color_index: usize) -> (data: Vec<Self>)
        ensures
            cpu_views(data@) == seeded_all(cpus@, initial_auto_color_index),
    {
        let mut data: Vec<CpuData> = Vec::new();
        let mut i: usize = 0;
        while i < cpus.len()
            invariant
                i <= cpus.len(),
                data@.len() == i,
                forall|j: int|
                    0 <= j < i ==> (#[trigger] data@[j])@ == seeded_all(
                        cpus@,
                        initial_auto_color_index,
                    )[j],
            decreases cpus.len() - i,
        {
            data.push(
                CpuData {
                    name: cpus[i].name.clone(),
                    usage: cpus[i].usage,
                    color_index: initial_auto_color_index as u128 + 2 * (i as u128),
                    is_display_on_plot: false,
                    plot_points: None,
                },
            );
            i = i + 1;
        }
        assert(cpu_views(data@) =~= seeded_all(cpus@, initial_auto_color_index));
        data
    }

    /// Takes in the core's use as read in one round.
    pub fn refresh(&mut self, usage: u64)
        ensures
            final(self)@ == old(self)@.refreshed(usage),
    {
        proof {
            use_type_invariant(&*self);
        }
        self.usage = usage;
        if self.is_display_on_plot {
            let mut kept: Option<Data<u64>> = None;
            std::mem::swap(&mut kept, &mut self.plot_points);
            let mut points = match kept {
                Some(points) => points,
                None => Data::new(HISTORY_LENGTH),
            };
            points.push(usage);
            self.plot_points = Some(points);
        } else {
            self.plot_points = None;
        }
    }

    /// Switches the core's plot on or off.
    pub fn set_display_on_plot(&mut self, on: bool)
        ensures
            final(self)@ == old(self)@.displayed(on),
    {
        proof {
            use_type_invariant(&*self);
        }
        self.is_display_on_plot = on;
        if !on {
            self.plot_points = None;
        }
    }

    pub fn name(&self) -> (name: &String)
        ensures
            name@ == self@.name,
    {
        &self.name
    }

    pub fn usage(&self) -> (usage: u64)
        ensures
            usage == self@.usage,
    {
        self.usage
    }

    pub fn color_index(&self) -> (color_index: u128)
        ensures
            color_index == self@.color_index,
    {
        self.color_index
    }

    pub fn is_display_on_plot(&self) -> (on: bool)
        ensures
            on == self@.is_display_on_plot,
    {
        self.is_display_on_plot
    }

    pub fn plot_points(&self) -> (points: Option<&Data<u64>>)
        ensures
            match points {
                Some(points) => self@.plot_points == Some(points@),
                None => self@.plot_points is None,
            },
    {
        self.plot_points.as_ref()
    }
}

/// The position of the first core called `name`.
pub fn find_cpu(cpus: &Vec<CpuData>, name: &String) -> (found: Option<usize>)
    ensures
        match found {
            Some(i) => first_position(cpu_names(cpu_views(cpus@)), name@) == Some(i as int),
            None => first_position(cpu_names(cpu_views(cpus@)), name@) is None,
        },
{
    let ghost names = cpu_names(cpu_views(cpus@));
    let mut i: usize = 0;
    while i < cpus.len()
        invariant
            i <= cpus.len(),
            names == cpu_names(cpu_views(cpus@)),
            forall|j: int| 0 <= j < i ==> names[j] != name@,
        decreases cpus.len() - i,
    {
        if cpus[i].name == *name {
            proof {
                assert(names[i as int] == name@);
                lemma_first_position_found(names, name@, i as int);
            }
            return Some(i);
        }
        i = i + 1;
    }
    proof {
        lemma_first_position_missing(names, name@);
    }
    None
}

/// Whether every core that `readings` report is tracked among `cpus`.
pub fn tracks_cpus(cpus: &Vec<CpuData>, readings: &Vec<CpuReading>) -> (all: bool)
    ensures
        all == holds_all(cpu_names(cpu_views(cpus@)), reported_names(readings@)),
{
    let ghost names = cpu_names(cpu_views(cpus@));
    let mut i: usize = 0;
    while i < readings.len()
        invariant
            i <= readings.len(),
            names == cpu_names(cpu_views(cpus@)),
            forall|j: int| 0 <= j < i ==> names.contains(#[trigger] reported_names(readings@)[j]),
        decreases readings.len() - i,
    {
        proof {
            lemma_first_position_holds(names, readings@[i as int].name@);
        }
        if find_cpu(cpus, &readings[i].name).is_none() {
            assert(!names.contains(reported_names(readings@)[i as int]));
            return false;
        }
        i = i + 1;
    }
    true
}

/// Takes in what one round reads of the cores: each reading refreshes the
/// first core of its name.
pub fn update_cpus(cpus: &mut Vec<CpuData>, readings: &Vec<CpuReading>)
    requires
        holds_all(cpu_names(cpu_views(old(cpus)@)), reported_names(readings@)),
    ensures
        cpu_views(final(cpus)@) == refreshed_all(cpu_views(old(cpus)@), readings@),
{
    let mut i: usize = 0;
    while i < readings.len()
        invariant
            i <= readings.len(),
            cpus@.len() == old(cpus)@.len(),
            cpu_names(cpu_views(cpus@)) == cpu_names(cpu_views(old(cpus)@)),
            holds_all(cpu_names(cpu_views(old(cpus)@)), reported_names(readings@)),
            cpu_views(cpus@) == refreshed_all(cpu_views(old(cpus)@), readings@.take(i as int)),
        decreases readings.len() - i,
    {
        let ghost before = cpu_views(cpus@);
        proof {
            assert(readings@.take(i + 1).drop_last() =~= readings@.take(i as int));
            assert(cpu_names(before).contains(reported_names(readings@)[i as int]));
            lemma_first_position_holds(cpu_names(before), readings@[i as int].name@);
        }
        match find_cpu(cpus, &readings[i].name) {
            Some(at) => {
                cpus[at].refresh(readings[i].usage);
                proof {
                    assert(cpu_views(cpus@) =~= before.update(
                        at as int,
                        before[at as int].refreshed(readings@[i as int].usage),
                    ));
                    assert(cpu_names(cpu_views(cpus@)) =~= cpu_names(before));
                }
            },
            None => {},
        }
        i = i + 1;
    }
    assert(readings@.take(i as int) =~= readings@);
}

/// A core whose plot is switched off and on again has lost its history:
/// no earlier sample comes back, and the next round starts a new history
/// with its reading alone.
pub proof fn lemma_cpu_history_is_reset(core: CpuView, usage: u64)
    ensures
        core.displayed(false).displayed(true).plot_points is None,
        core.displayed(false).displayed(true).refreshed(usage).plot_points == Some(seq![usage]),
{
    let again = core.displayed(false).displayed(true);
    assert(held(again.plot_points).push(usage) =~= seq![usage]);
    assert(newest(seq![usage], HISTORY_LENGTH as nat) =~= seq![usage]);
}

} // verus!
