//! Disks: their description for display and their transfer rate, sampled
//! from cumulative byte counters.

use crate::history::{newest, Data, HISTORY_LENGTH};
use crate::identity::{
    first_position, lemma_first_position_found, lemma_first_position_holds,
    lemma_first_position_missing,
};
use crate::text::{longest, pad_all, padded, two_places, two_places_text};
use crate::units::{
    bytes_to_gb_or_tb_tuple, enlarged, hundredths_in_unit, unit_for, StorageUnit,
};
use vstd::arithmetic::div_mod::{lemma_div_is_ordered, lemma_div_is_ordered_by_denominator};
use vstd::prelude::*;
use vstd::string::*;
use vstd::utf8::{decode_utf8, valid_utf8};

verus! {

/// The least upper edge of a disk's plot, in thousandths of a kilobyte per
/// second.
pub const DISK_FLOOR: u128 = 450_000;

/// No transfer rate exceeds this in size, whatever the counters read.
pub const RATE_LIMIT: i128 = 36_893_488_147_419_103_232_000;

/// What a disk's plot shows above its largest value, in hundredths of it.
pub const DISK_MARGIN: u128 = 23;

/// The cumulative byte counters of a disk.
#[derive(Clone, Copy, Debug, PartialEq, Eq, Structural)]
pub struct DiskPerformance {
    pub bytes_read: u64,
    pub bytes_written: u64,
}

/// The technology of a disk.
#[derive(Clone, Copy, Debug, PartialEq, Eq, Structural)]
pub enum DiskKind {
    Ssd,
    Hdd,
    Unknown,
}

/// What is read of one disk in one round.
pub struct DiskReading {
    pub name: String,
    pub mount_point: String,
    pub total_space: u64,
    pub available_space: u64,
    pub kind: DiskKind,
    /// The file system's name, in the bytes that the system reports.
    pub file_system: Vec<u8>,
    pub is_removable: bool,
    /// The counters, where the query for them succeeded.
    pub performance: Option<DiskPerformance>,
}

/// The whole part of `numerator / denominator`, rounded towards zero.
pub open spec fn truncated_quotient(numerator: int, denominator: int) -> int {
    if numerator >= 0 {
        numerator / denominator
    } else {
        -((-numerator) / denominator)
    }
}

/// The bytes moved between two readings of a disk's counters.
pub open spec fn bytes_moved(last: DiskPerformance, current: DiskPerformance) -> int {
    (current.bytes_read - last.bytes_read) + (current.bytes_written - last.bytes_written)
}

/// The transfer rate between two readings taken `elapsed_ms` milliseconds
/// apart, in thousandths of a kilobyte per second, rounded towards zero:
/// the bytes moved, divided by 1024 and by the seconds elapsed.
pub open spec fn transfer_rate(
    last: DiskPerformance,
    current: DiskPerformance,
    elapsed_ms: int,
) -> int {
    truncated_quotient(bytes_moved(last, current) * 1_000_000, 1024 * elapsed_ms)
}

/// The largest of `values` and `floor`.
pub open spec fn floor_max(values: Seq<i128>, floor: int) -> int
    decreases values.len(),
{
    if values.len() == 0 {
        floor
    } else {
        let rest = floor_max(values.drop_last(), floor);
        if values.last() > rest {
            values.last() as int
        } else {
            rest
        }
    }
}

/// The abbreviation of a storage unit.
pub open spec fn unit_label(unit: StorageUnit) -> Seq<char> {
    match unit {
        StorageUnit::Gigabytes => "GB"@,
        StorageUnit::Terabytes => "TB"@,
    }
}

/// A size in bytes as shown: two decimal places, a blank and the unit.
pub open spec fn size_label(bytes: int) -> Seq<char> {
    two_places(hundredths_in_unit(bytes) as nat) + seq![' '] + unit_label(unit_for(bytes))
}

/// A disk's technology as shown.
pub open spec fn kind_label(kind: DiskKind) -> Seq<char> {
    match kind {
        DiskKind::Ssd => "SSD"@,
        DiskKind::Hdd => "HDD"@,
        DiskKind::Unknown => "UNKNOWN"@,
    }
}

/// Whether a disk can be removed, as shown.
pub open spec fn removable_label(is_removable: bool) -> Seq<char> {
    if is_removable {
        "yes"@
    } else {
        "no"@
    }
}

/// A disk's name as shown: a disk without a name is called "None".
pub open spec fn name_label(name: Seq<char>) -> Seq<char> {
    if name.len() == 0 {
        "None"@
    } else {
        name
    }
}

/// The space in use on a disk: what is not available of the total.
pub open spec fn used_space(reading: DiskReading) -> int {
    if reading.available_space <= reading.total_space {
        reading.total_space - reading.available_space
    } else {
        0
    }
}

/// A disk can be described: the name of its file system is text, encoded
/// as UTF-8.
pub open spec fn is_describable(reading: DiskReading) -> bool {
    valid_utf8(reading.file_system@)
}

/// Every disk that `readings` report can be described.
pub open spec fn all_describable(readings: Seq<DiskReading>) -> bool {
    forall|i: int| 0 <= i < readings.len() ==> is_describable(#[trigger] readings[i])
}

/// The seven texts that describe a disk, before they are padded: name, mount
/// point, used space, total space, technology, file system, removable.
pub open spec fn labels(reading: DiskReading) -> Seq<Seq<char>> {
    seq![
        name_label(reading.name@),
        reading.mount_point@,
        size_label(used_space(reading)),
        size_label(reading.total_space as int),
        kind_label(reading.kind),
        decode_utf8(reading.file_system@),
        removable_label(reading.is_removable),
    ]
}

/// What a disk's state holds.
pub struct DiskView {
    /// The mount point, by which the disk is found again.
    pub key: Seq<char>,
    pub name: Seq<char>,
    pub mount_point: Seq<char>,
    pub used_space: Seq<char>,
    pub total_space: Seq<char>,
    pub kind: Seq<char>,
    pub file_system: Seq<char>,
    pub is_removable: Seq<char>,
    /// The counters last read, and when.
    pub last_performance: Option<(DiskPerformance, u64)>,
    /// The transfer rates sampled, oldest first.
    pub plot_points: Seq<i128>,
    pub y_max_bound: u128,
}

impl DiskView {
    /// The state of a disk seen for the first time: its seven texts padded
    /// to the length of the longest, no counters, no samples.
    pub open spec fn described(reading: DiskReading) -> DiskView {
        let texts = labels(reading);
        let width = longest(texts);
        DiskView {
            key: reading.mount_point@,
            name: padded(texts[0], width),
            mount_point: padded(texts[1], width),
            used_space: padded(texts[2], width),
            total_space: padded(texts[3], width),
            kind: padded(texts[4], width),
            file_system: padded(texts[5], width),
            is_removable: padded(texts[6], width),
            last_performance: None,
            plot_points: Seq::empty(),
            y_max_bound: DISK_FLOOR,
        }
    }

    /// The state after a query for the counters at time `now`, in
    /// milliseconds. A failed query changes nothing. Counters that follow
    /// earlier ones by some time add the transfer rate between the two as a
    /// sample; in any case they are kept for the next round.
    pub open spec fn sampled(self, current: Option<DiskPerformance>, now: u64) -> DiskView {
        match current {
            None => self,
            Some(performance) => DiskView {
                last_performance: Some((performance, now)),
                plot_points: match self.last_performance {
                    Some((last, then)) => if now > then {
                        newest(
                            self.plot_points.push(
                                transfer_rate(last, performance, now - then) as i128,
                            ),
                            HISTORY_LENGTH as nat,
                        )
                    } else {
                        self.plot_points
                    },
                    None => self.plot_points,
                },
                ..self
            },
        }
    }

    /// The state with the plot's bound brought up to date: the largest
    /// sample, and at least the floor.
    pub open spec fn rebounded(self) -> DiskView {
        DiskView { y_max_bound: floor_max(self.plot_points, DISK_FLOOR as int) as u128, ..self }
    }
}

/// A disk as the display shows it, with the history of its transfer rate.
pub struct DiskInformations {
    key: String,
    name: String,
    mount_point: String,
    used_space: String,
    total_space: String,
    kind: String,
    file_system: String,
    is_removable: String,
    last_performance: Option<(DiskPerformance, u64)>,
    plot_points: Data<i128>,
    y_max_bound: u128,
}

impl View for DiskInformations {
    type V = DiskView;

    closed spec fn view(&self) -> DiskView {
        DiskView {
            key: self.key@,
            name: self.name@,
            mount_point: self.mount_point@,
            used_space: self.used_space@,
            total_space: self.total_space@,
            kind: self.kind@,
            file_system: self.file_system@,
            is_removable: self.is_removable@,
            last_performance: self.last_performance,
            plot_points: self.plot_points@,
            y_max_bound: self.y_max_bound,
        }
    }
}

/// The text that `bytes` encode, where they encode one.
///
/// The text is decoded by `std::str::from_utf8`, and the contract is taken
/// on trust from it: it accepts the bytes just when they are valid UTF-8,
/// and the text it gives is the one that they encode.
#[verifier::external_body]
fn text_of(bytes: &Vec<u8>) -> (text: Option<String>)
    ensures
        text is Some <==> valid_utf8(bytes@),
        text matches Some(decoded) ==> decoded@ == decode_utf8(bytes@),
{
    match std::str::from_utf8(bytes.as_slice()) {
        Ok(decoded) => Some(decoded.to_string()),
        Err(_) => None,
    }
}

/// The transfer rate between two readings of a disk's counters.
fn rate_between(last: DiskPerformance, current: DiskPerformance, elapsed_ms: u64) -> (rate: i128)
    requires
        elapsed_ms > 0,
    ensures
        rate == transfer_rate(last, current, elapsed_ms as int),
        -RATE_LIMIT <= rate <= RATE_LIMIT,
{
    let read_diff: i128 = current.bytes_read as i128 - last.bytes_read as i128;
    let write_diff: i128 = current.bytes_written as i128 - last.bytes_written as i128;
    let total_diff: i128 = read_diff + write_diff;
    let divisor: u128 = 1024 * (elapsed_ms as u128);
    let size: u128 = if total_diff >= 0 {
        total_diff as u128
    } else {
        (-total_diff) as u128
    };
    let scaled: u128 = size * 1_000_000;
    let quotient: u128 = scaled / divisor;
    proof {
        lemma_div_is_ordered_by_denominator(scaled as int, 1024, divisor as int);
        lemma_div_is_ordered(scaled as int, 36_893_488_147_419_103_232_000_000, 1024);
    }
    if total_diff >= 0 {
        quotient as i128
    } else {
        -(quotient as i128)
    }
}

impl DiskInformations {
    #[verifier::type_invariant]
    spec fn within_limits(&self) -> bool {
        &&& self.plot_points.capacity() == HISTORY_LENGTH
        &&& DISK_FLOOR <= self.y_max_bound <= RATE_LIMIT
        &&& forall|i: int|
            0 <= i < self.plot_points@.len() ==> -RATE_LIMIT <= #[trigger] self.plot_points@[i]
                <= RATE_LIMIT
    }

    /// The state of a disk that is seen for the first time.
    pub fn new(reading: &DiskReading) -> (disk: Self)
        requires
            is_describable(*reading),
        ensures
            disk@ == DiskView::described(*reading),
    {
        let used: u64 = if reading.available_space <= reading.total_space {
            reading.total_space - reading.available_space
        } else {
            0
        };
        let mut texts: Vec<String> = Vec::new();
        texts.push(name_text(&reading.name));
        texts.push(reading.mount_point.clone());
        texts.push(size_text(used));
        texts.push(size_text(reading.total_space));
        texts.push(kind_text(reading.kind));
        texts.push(text_of(&reading.file_system).unwrap());
        texts.push(removable_text(reading.is_removable));
        assert(texts.deep_view() =~= labels(*reading));
        let wide = pad_all(&texts);
        DiskInformations {
            key: reading.mount_point.clone(),
            name: wide[0].clone(),
            mount_point: wide[1].clone(),
            used_space: wide[2].clone(),
            total_space: wide[3].clone(),
            kind: wide[4].clone(),
            file_system: wide[5].clone(),
            is_removable: wide[6].clone(),
            last_performance: None,
            plot_points: Data::new(HISTORY_LENGTH),
            y_max_bound: DISK_FLOOR,
        }
    }

    /// The upper edge of the disk's plot: its bound and the margin on top.
    pub fn plot_edge(&self) -> (edge: u128)
        ensures
            edge == enlarged(self@.y_max_bound as int, DISK_MARGIN as int),
    {
        proof {
            use_type_invariant(self);
        }
        self.y_max_bound + self.y_max_bound * DISK_MARGIN / 100
    }

    pub fn name(&self) -> (text: &String)
        ensures
            text@ == self@.name,
    {
        &self.name
    }

    pub fn mount_point(&self) -> (text: &String)
        ensures
            text@ == self@.mount_point,
    {
        &self.mount_point
    }

    pub fn used_space(&self) -> (text: &String)
        ensures
            text@ == self@.used_space,
    {
        &self.used_space
    }

    pub fn total_space(&self) -> (text: &String)
        ensures
            text@ == self@.total_space,
    {
        &self.total_space
    }

    pub fn kind(&self) -> (text: &String)
        ensures
            text@ == self@.kind,
    {
        &self.kind
    }

    pub fn file_system(&self) -> (text: &String)
        ensures
            text@ == self@.file_system,
    {
        &self.file_system
    }

    pub fn is_removable(&self) -> (text: &String)
        ensures
            text@ == self@.is_removable,
    {
        &self.is_removable
    }

    pub fn last_performance(&self) -> (last: Option<(DiskPerformance, u64)>)
        ensures
            last == self@.last_performance,
    {
        self.last_performance
    }

    pub fn plot_points(&self) -> (points: &Data<i128>)
        ensures
            points@ == self@.plot_points,
    {
        &self.plot_points
    }

    pub fn y_max_bound(&self) -> (bound: u128)
        ensures
            bound == self@.y_max_bound,
            bound >= DISK_FLOOR,
    {
        proof {
            use_type_invariant(self);
        }
        self.y_max_bound
    }

    /// Brings the plot's bound up to date with the samples held.
    pub fn refresh_bound(&mut self)
        ensures
            final(self)@ == old(self)@.rebounded(),
    {
        proof {
            use_type_invariant(&*self);
        }
        let mut bound: i128 = DISK_FLOOR as i128;
        for rate in it: self.plot_points.data_iter()
            invariant
                it.seq() == self.plot_points@.as_ref(),
                bound == floor_max(self.plot_points@.take(it.index()), DISK_FLOOR as int),
                DISK_FLOOR <= bound <= RATE_LIMIT,
                forall|i: int|
                    0 <= i < self.plot_points@.len() ==> -RATE_LIMIT
                        <= #[trigger] self.plot_points@[i] <= RATE_LIMIT,
        {
            assert(self.plot_points@.take(it.index() + 1).drop_last() =~= self.plot_points@.take(
                it.index(),
            ));
            if *rate > bound {
                bound = *rate;
            }
        }
        assert(self.plot_points@.take(self.plot_points@.len() as int) =~= self.plot_points@);
        self.y_max_bound = bound as u128;
    }
}

/// Takes in the outcome of one query for a disk's counters, made at time
/// `now` in milliseconds.
pub fn set_disk_transfer(
    disk: &mut DiskInformations,
    current_performance: Option<DiskPerformance>,
    now: u64,
)
    ensures
        final(disk)@ == old(disk)@.sampled(current_performance, now),
{
    proof {
        use_type_invariant(&*disk);
    }
    if let Some(current) = current_performance {
        if let Some((last, then)) = disk.last_performance {
            if now > then {
                let rate = rate_between(last, current, now - then);
                let mut points: Data<i128> = Data::new(HISTORY_LENGTH);
                std::mem::swap(&mut points, &mut disk.plot_points);
                points.push(rate);
                disk.plot_points = points;
            }
        }
        disk.last_performance = Some((current, now));
    }
}

/// What each of `disks` holds.
pub open spec fn disk_views(disks: Seq<DiskInformations>) -> Seq<DiskView> {
    Seq::new(disks.len(), |i: int| disks[i]@)
}

/// The mount points of `disks`, in their order.
pub open spec fn disk_keys(disks: Seq<DiskView>) -> Seq<Seq<char>> {
    Seq::new(disks.len(), |i: int| disks[i].key)
}

/// The disks as they are first seen, in the order they are reported in.
pub open spec fn described_all(readings: Seq<DiskReading>) -> Seq<DiskView> {
    Seq::new(readings.len(), |i: int| DiskView::described(readings[i]))
}

/// The disks after a round at time `now`: each reading, in its turn, is
/// taken in by the first disk with its mount point, or by a new disk at the
/// end where there is none; the disk's bound follows.
pub open spec fn sampled_all(disks: Seq<DiskView>, readings: Seq<DiskReading>, now: u64) -> Seq<
    DiskView,
>
    decreases readings.len(),
{
    if readings.len() == 0 {
        disks
    } else {
        let earlier = sampled_all(disks, readings.drop_last(), now);
        let reading = readings.last();
        match first_position(disk_keys(earlier), reading.mount_point@) {
            Some(i) => earlier.update(
                i,
                earlier[i].sampled(reading.performance, now).rebounded(),
            ),
            None => earlier.push(
                DiskView::described(reading).sampled(reading.performance, now).rebounded(),
            ),
        }
    }
}

/// Whether every disk that `readings` report can be described.
pub fn can_describe(readings: &Vec<DiskReading>) -> (all: bool)
    ensures
        all == all_describable(readings@),
{
    let mut i: usize = 0;
    while i < readings.len()
        invariant
            i <= readings.len(),
            forall|j: int| 0 <= j < i ==> is_describable(#[trigger] readings@[j]),
        decreases readings.len() - i,
    {
        if text_of(&readings[i].file_system).is_none() {
            assert(!is_describable(readings@[i as int]));
            return false;
        }
        i = i + 1;
    }
    true
}

/// The states of the disks that `readings` report, in their order.
pub fn describe_disks(readings: &Vec<DiskReading>) -> (disks: Vec<DiskInformations>)
    requires
        all_describable(readings@),
    ensures
        disk_views(disks@) == described_all(readings@),
{
    let mut disks: Vec<DiskInformations> = Vec::new();
    let mut i: usize = 0;
    while i < readings.len()
        invariant
            i <= readings.len(),
            all_describable(readings@),
            disks@.len() == i,
            forall|j: int| 0 <= j < i ==> (#[trigger] disks@[j])@ == described_all(readings@)[j],
        decreases readings.len() - i,
    {
        disks.push(DiskInformations::new(&readings[i]));
        i = i + 1;
    }
    assert(disk_views(disks@) =~= described_all(readings@));
    disks
}

/// The position of the first disk mounted at `mount_point`.
pub fn find_disk(disks: &Vec<DiskInformations>, mount_point: &String) -> (found: Option<usize>)
    ensures
        match found {
            Some(i) => first_position(disk_keys(disk_views(disks@)), mount_point@) == Some(i as int),
            None => first_position(disk_keys(disk_views(disks@)), mount_point@) is None,
        },
{
    let ghost keys = disk_keys(disk_views(disks@));
    let mut i: usize = 0;
    while i < disks.len()
        invariant
            i <= disks.len(),
            keys == disk_keys(disk_views(disks@)),
            forall|j: int| 0 <= j < i ==> keys[j] != mount_point@,
        decreases disks.len() - i,
    {
        if disks[i].key == *mount_point {
            proof {
                assert(keys[i as int] == mount_point@);
                lemma_first_position_found(keys, mount_point@, i as int);
            }
            return Some(i);
        }
        i = i + 1;
    }
    proof {
        lemma_first_position_missing(keys, mount_point@);
    }
    None
}

/// Takes in what one round, at time `now` in milliseconds, reads of the
/// disks. A disk that is reported for the first time is added.
pub fn update_disks(disks: &mut Vec<DiskInformations>, readings: &Vec<DiskReading>, now: u64)
    requires
        all_describable(readings@),
    ensures
        disk_views(final(disks)@) == sampled_all(disk_views(old(disks)@), readings@, now),
{
    let mut i: usize = 0;
    while i < readings.len()
        invariant
            i <= readings.len(),
            all_describable(readings@),
            disk_views(disks@) == sampled_all(disk_views(old(disks)@), readings@.take(i as int), now),
        decreases readings.len() - i,
    {
        let ghost before = disk_views(disks@);
        proof {
            assert(readings@.take(i + 1).drop_last() =~= readings@.take(i as int));
            lemma_first_position_holds(disk_keys(before), readings@[i as int].mount_point@);
        }
        match find_disk(disks, &readings[i].mount_point) {
            Some(at) => {
                set_disk_transfer(&mut disks[at], readings[i].performance, now);
                disks[at].refresh_bound();
                assert(disk_views(disks@) =~= before.update(
                    at as int,
                    before[at as int].sampled(readings@[i as int].performance, now).rebounded(),
                ));
            },
            None => {
                let mut disk = DiskInformations::new(&readings[i]);
                set_disk_transfer(&mut disk, readings[i].performance, now);
                disk.refresh_bound();
                disks.push(disk);
                assert(disk_views(disks@) =~= before.push(
                    DiskView::described(readings@[i as int]).sampled(
                        readings@[i as int].performance,
                        now,
                    ).rebounded(),
                ));
            },
        }
        i = i + 1;
    }
    assert(readings@.take(i as int) =~= readings@);
}

fn name_text(name: &String) -> (text: String)
    ensures
        text@ == name_label(name@),
{
    if name.as_str().unicode_len() == 0 {
        String::from_str("None")
    } else {
        name.clone()
    }
}

/// A size in bytes as shown: two decimal places, a blank and the unit.
pub fn size_text(bytes: u64) -> (text: String)
    ensures
        text@ == size_label(bytes as int),
{
    proof {
        reveal_strlit(" ");
    }
    let size = bytes_to_gb_or_tb_tuple(bytes);
    let mut text = two_places_text(size.0);
    text.append(" ");
    text.append(size.1.label());
    text
}

fn kind_text(kind: DiskKind) -> (text: String)
    ensures
        text@ == kind_label(kind),
{
    match kind {
        DiskKind::Ssd => String::from_str("SSD"),
        DiskKind::Hdd => String::from_str("HDD"),
        DiskKind::Unknown => String::from_str("UNKNOWN"),
    }
}

fn removable_text(is_removable: bool) -> (text: String)
    ensures
        text@ == removable_label(is_removable),
{
    if is_removable {
        String::from_str("yes")
    } else {
        String::from_str("no")
    }
}

/// Whatever the counters read, the transfer rate between two readings
/// some time apart stays within the limit.
pub proof fn lemma_transfer_rate_within_limit(
    last: DiskPerformance,
    current: DiskPerformance,
    elapsed_ms: int,
)
    requires
        elapsed_ms > 0,
    ensures
        -RATE_LIMIT <= transfer_rate(last, current, elapsed_ms) <= RATE_LIMIT,
{
    let moved = bytes_moved(last, current);
    let size = if moved >= 0 {
        moved
    } else {
        -moved
    };
    lemma_div_is_ordered_by_denominator(size * 1_000_000, 1024, 1024 * elapsed_ms);
    lemma_div_is_ordered(size * 1_000_000, 36_893_488_147_419_103_232_000_000, 1024);
    vstd::arithmetic::div_mod::lemma_div_pos_is_pos(size * 1_000_000, 1024 * elapsed_ms);
}

/// Where no fewer bytes were read and written than before, the transfer
/// rate is the bytes moved, divided by 1024 and by the seconds elapsed,
/// in thousandths.
pub proof fn lemma_transfer_rate_of_growth(
    last: DiskPerformance,
    current: DiskPerformance,
    elapsed_ms: int,
)
    requires
        elapsed_ms > 0,
        last.bytes_read <= current.bytes_read,
        last.bytes_written <= current.bytes_written,
    ensures
        transfer_rate(last, current, elapsed_ms) == ((current.bytes_read - last.bytes_read) + (
        current.bytes_written - last.bytes_written)) * 1_000_000 / (1024 * elapsed_ms),
{
}

/// The first counters read of a disk give no sample: they are kept, and
/// the history stays empty.
pub proof fn lemma_first_reading_gives_no_sample(
    reading: DiskReading,
    first: DiskPerformance,
    now: u64,
)
    ensures
        DiskView::described(reading).sampled(Some(first), now).plot_points == Seq::<i128>::empty(),
        DiskView::described(reading).sampled(Some(first), now).last_performance == Some(
            (first, now),
        ),
{
}

/// Counters read at `then` and again at a later time `now` give one
/// sample, the transfer rate between the two over the time between them.
pub proof fn lemma_second_reading_gives_rate(
    reading: DiskReading,
    first: DiskPerformance,
    then: u64,
    second: DiskPerformance,
    now: u64,
)
    requires
        then < now,
    ensures
        DiskView::described(reading).sampled(Some(first), then).sampled(
            Some(second),
            now,
        ).plot_points.len() == 1,
        DiskView::described(reading).sampled(Some(first), then).sampled(
            Some(second),
            now,
        ).plot_points[0] == transfer_rate(first, second, now - then),
{
    lemma_transfer_rate_within_limit(first, second, now - then);
}

/// Counters read some time after earlier ones add, as the newest sample,
/// the transfer rate between the two over the time between them.
pub proof fn lemma_later_reading_gives_rate(
    disk: DiskView,
    last: DiskPerformance,
    then: u64,
    current: DiskPerformance,
    now: u64,
)
    requires
        disk.last_performance == Some((last, then)),
        then < now,
    ensures
        disk.sampled(Some(current), now).plot_points.len() > 0,
        disk.sampled(Some(current), now).plot_points.last() == transfer_rate(
            last,
            current,
            now - then,
        ),
        disk.sampled(Some(current), now).last_performance == Some((current, now)),
{
    lemma_transfer_rate_within_limit(last, current, now - then);
}

/// A query that failed leaves a disk as it was.
pub proof fn lemma_failed_query_changes_nothing(disk: DiskView, now: u64)
    ensures
        disk.sampled(None, now) == disk,
{
}

} // verus!
