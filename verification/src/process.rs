//! Processes: each one with what it uses, and the groups that gather the
//! processes of one parent.

use crate::order::{comes_before, is_largest_first, largest_first};
use rand::Rng;
use vstd::prelude::*;
use vstd::string::*;

verus! {

/// What the process table can be ordered by.
#[derive(Clone, Copy, Debug, PartialEq, Eq, Structural)]
pub enum ProcessesSortOption {
    Cpu,
    Memory,
    Disk,
}

/// What is read of one process in one round.
pub struct ProcessReading {
    pub pid: u32,
    pub name: String,
    /// The parent's id, where the system reports one.
    pub parent: Option<u32>,
    /// Processor use, in thousandths of a percent.
    pub cpu: u64,
    /// Memory in use, in bytes.
    pub memory: u64,
    pub disk_read: u64,
    pub disk_written: u64,
}

/// One process with what it uses.
pub struct SpecificProcess {
    pub pid: u32,
    pub name: String,
    /// Processor use, in thousandths of a percent.
    pub cpu: u64,
    /// Memory in use, in bytes.
    pub memory: u64,
    /// Bytes read and written.
    pub disk: u64,
}

/// A process under the key of the group it belongs to.
pub struct KeyedProcess {
    pub key: u32,
    pub process: SpecificProcess,
}

/// The processes of one parent, and what they use together.
pub struct ProcessInformations {
    /// The key of the group: the parent's id.
    pub pid: u32,
    /// The name of the group's first process.
    pub name: String,
    /// The processes' use of the processor, as a share of all cores, in
    /// thousandths of a percent.
    pub cpu: u128,
    pub memory: u128,
    pub disk: u128,
    pub child_processes: Vec<SpecificProcess>,
}

/// The bytes a process has read and written; a sum beyond the counter's
/// range counts as its largest value.
pub open spec fn disk_bytes(read: u64, written: u64) -> u64 {
    if read + written <= u64::MAX {
        (read + written) as u64
    } else {
        u64::MAX
    }
}

/// The process that a reading describes.
pub open spec fn leaf_of(reading: ProcessReading) -> SpecificProcess {
    SpecificProcess {
        pid: reading.pid,
        name: reading.name,
        cpu: reading.cpu,
        memory: reading.memory,
        disk: disk_bytes(reading.disk_read, reading.disk_written),
    }
}

/// The key of the group that a reading falls into: its parent's id, or
/// `orphan_key` where it has no parent.
pub open spec fn group_key(reading: ProcessReading, orphan_key: u32) -> u32 {
    match reading.parent {
        Some(parent) => parent,
        None => orphan_key,
    }
}

/// What a process uses of what `option` names.
pub open spec fn leaf_value(option: ProcessesSortOption, leaf: SpecificProcess) -> int {
    match option {
        ProcessesSortOption::Cpu => leaf.cpu as int,
        ProcessesSortOption::Memory => leaf.memory as int,
        ProcessesSortOption::Disk => leaf.disk as int,
    }
}

/// What a group uses of what `option` names.
pub open spec fn group_value(option: ProcessesSortOption, group: ProcessInformations) -> int {
    match option {
        ProcessesSortOption::Cpu => group.cpu as int,
        ProcessesSortOption::Memory => group.memory as int,
        ProcessesSortOption::Disk => group.disk as int,
    }
}

/// What `leaves` use together of what `option` names.
pub open spec fn total(option: ProcessesSortOption, leaves: Seq<SpecificProcess>) -> int
    decreases leaves.len(),
{
    if leaves.len() == 0 {
        0
    } else {
        total(option, leaves.drop_last()) + leaf_value(option, leaves.last())
    }
}

/// What `groups` hold together of what `option` names.
pub open spec fn groups_total(option: ProcessesSortOption, groups: Seq<ProcessInformations>) -> int
    decreases groups.len(),
{
    if groups.len() == 0 {
        0
    } else {
        groups_total(option, groups.drop_last()) + group_value(option, groups.last())
    }
}

/// The processes themselves, without their keys.
pub open spec fn leaves(keyed: Seq<KeyedProcess>) -> Seq<SpecificProcess> {
    Seq::new(keyed.len(), |i: int| keyed[i].process)
}

/// The processes under `key`, in the order they are listed.
pub open spec fn children_of(keyed: Seq<KeyedProcess>, key: u32) -> Seq<SpecificProcess>
    decreases keyed.len(),
{
    if keyed.len() == 0 {
        Seq::empty()
    } else if keyed.last().key == key {
        children_of(keyed.drop_last(), key).push(keyed.last().process)
    } else {
        children_of(keyed.drop_last(), key)
    }
}

/// The keys that occur, each once, in the order of their first occurrence.
pub open spec fn group_keys(keyed: Seq<KeyedProcess>) -> Seq<u32>
    decreases keyed.len(),
{
    if keyed.len() == 0 {
        Seq::empty()
    } else {
        let earlier = group_keys(keyed.drop_last());
        if earlier.contains(keyed.last().key) {
            earlier
        } else {
            earlier.push(keyed.last().key)
        }
    }
}

/// The number of cores that a group's processor use is spread over: the
/// physical cores, or one where their number is unknown or zero.
pub open spec fn cores_counted(physical_core_count: Option<usize>) -> int {
    match physical_core_count {
        Some(count) => if count > 0 {
            count as int
        } else {
            1
        },
        None => 1,
    }
}

/// `group` gathers the processes of `keyed` under `key`: it holds them in
/// their order, is named after the first, and sums up what they use, the
/// processor's share divided by the number of cores.
pub open spec fn is_group_of(
    group: ProcessInformations,
    keyed: Seq<KeyedProcess>,
    key: u32,
    cores: int,
) -> bool {
    let children = children_of(keyed, key);
    &&& group.pid == key
    &&& group.child_processes@ == children
    &&& children.len() > 0
    &&& group.name@ == children[0].name@
    &&& group.cpu == total(ProcessesSortOption::Cpu, children) / cores
    &&& group.memory == total(ProcessesSortOption::Memory, children)
    &&& group.disk == total(ProcessesSortOption::Disk, children)
}

/// `groups` are the groups of `keyed`: one for each key, in the order in
/// which the keys first occur.
pub open spec fn is_grouping(
    groups: Seq<ProcessInformations>,
    keyed: Seq<KeyedProcess>,
    cores: int,
) -> bool {
    &&& groups.len() == group_keys(keyed).len()
    &&& forall|i: int|
        0 <= i < groups.len() ==> is_group_of(#[trigger] groups[i], keyed, group_keys(keyed)[i], cores)
}

/// The keys of `groups`, in their order.
pub open spec fn group_pids(groups: Seq<ProcessInformations>) -> Seq<u32> {
    Seq::new(groups.len(), |i: int| groups[i].pid)
}

/// What a group uses of what `option` names, for each group.
pub open spec fn group_values(
    option: ProcessesSortOption,
    groups: Seq<ProcessInformations>,
) -> Seq<u128> {
    Seq::new(groups.len(), |i: int| group_value(option, groups[i]) as u128)
}

/// What a process uses of what `option` names, for each process.
pub open spec fn leaf_values(option: ProcessesSortOption, leaves: Seq<SpecificProcess>) -> Seq<
    u128,
> {
    Seq::new(leaves.len(), |i: int| leaf_value(option, leaves[i]) as u128)
}

/// Orphans get keys from here on.
pub const ORPHAN_KEY_LOW: u32 = 10_000;

/// Orphans get keys below this.
pub const ORPHAN_KEY_HIGH: u32 = 100_000;

/// `keyed` is the process of `reading` under the key of its group: its
/// parent's id, or a key from the orphans' range.
pub open spec fn is_keyed(reading: ProcessReading, keyed: KeyedProcess) -> bool {
    &&& keyed.process == leaf_of(reading)
    &&& match reading.parent {
        Some(parent) => keyed.key == parent,
        None => ORPHAN_KEY_LOW <= keyed.key < ORPHAN_KEY_HIGH,
    }
}

/// A number from `low` up to, and without, `high`, drawn at random.
///
/// The number is drawn by `Rng::gen_range` on `rand::thread_rng()`, and the
/// contract is taken on trust from it: it returns a value of the range it is
/// given, and panics on an empty range, which the precondition rules out.
/// Which value comes is left open.
#[verifier::external_body]
fn random_between(low: u32, high: u32) -> (drawn: u32)
    requires
        low < high,
    ensures
        low <= drawn < high,
{
    rand::thread_rng().gen_range(low..high)
}

fn copy_of(process: &SpecificProcess) -> (copy: SpecificProcess)
    ensures
        copy == *process,
{
    SpecificProcess {
        pid: process.pid,
        name: process.name.clone(),
        cpu: process.cpu,
        memory: process.memory,
        disk: process.disk,
    }
}

/// The process of a reading under the key of its group; `orphan_key` is the
/// key of a process without a parent.
pub fn key_process(reading: &ProcessReading, orphan_key: u32) -> (keyed: KeyedProcess)
    ensures
        keyed.key == group_key(*reading, orphan_key),
        keyed.process == leaf_of(*reading),
{
    let key = match reading.parent {
        Some(parent) => parent,
        None => orphan_key,
    };
    KeyedProcess {
        key,
        process: SpecificProcess {
            pid: reading.pid,
            name: reading.name.clone(),
            cpu: reading.cpu,
            memory: reading.memory,
            disk: reading.disk_read.saturating_add(reading.disk_written),
        },
    }
}

/// Every process under the key of its group. A process without a parent
/// gets a key drawn at random from the orphans' range, anew on each call.
pub fn assign_group_keys(processes: &Vec<ProcessReading>) -> (keyed: Vec<KeyedProcess>)
    ensures
        keyed@.len() == processes@.len(),
        forall|i: int| 0 <= i < processes@.len() ==> is_keyed(processes@[i], #[trigger] keyed@[i]),
{
    let mut keyed: Vec<KeyedProcess> = Vec::new();
    let mut i: usize = 0;
    while i < processes.len()
        invariant
            i <= processes.len(),
            keyed@.len() == i,
            forall|j: int| 0 <= j < i ==> is_keyed(processes@[j], #[trigger] keyed@[j]),
        decreases processes.len() - i,
    {
        let orphan_key = match processes[i].parent {
            Some(parent) => parent,
            None => random_between(ORPHAN_KEY_LOW, ORPHAN_KEY_HIGH),
        };
        keyed.push(key_process(&processes[i], orphan_key));
        i = i + 1;
    }
    keyed
}

fn contains_key(keys: &Vec<u32>, key: u32) -> (found: bool)
    ensures
        found == keys@.contains(key),
{
    let mut i: usize = 0;
    while i < keys.len()
        invariant
            i <= keys.len(),
            forall|j: int| 0 <= j < i ==> keys@[j] != key,
        decreases keys.len() - i,
    {
        if keys[i] == key {
            return true;
        }
        i = i + 1;
    }
    false
}

fn distinct_keys(keyed: &Vec<KeyedProcess>) -> (keys: Vec<u32>)
    ensures
        keys@ == group_keys(keyed@),
{
    let mut keys: Vec<u32> = Vec::new();
    let mut i: usize = 0;
    while i < keyed.len()
        invariant
            i <= keyed.len(),
            keys@ == group_keys(keyed@.take(i as int)),
        decreases keyed.len() - i,
    {
        let key = keyed[i].key;
        assert(keyed@.take(i + 1).drop_last() =~= keyed@.take(i as int));
        if !contains_key(&keys, key) {
            keys.push(key);
        }
        i = i + 1;
    }
    assert(keyed@.take(i as int) =~= keyed@);
    keys
}

fn gather(keyed: &Vec<KeyedProcess>, key: u32, cores: u128) -> (group: ProcessInformations)
    requires
        cores > 0,
        children_of(keyed@, key).len() > 0,
    ensures
        is_group_of(group, keyed@, key, cores as int),
{
    let mut children: Vec<SpecificProcess> = Vec::new();
    let mut cpu: u128 = 0;
    let mut memory: u128 = 0;
    let mut disk: u128 = 0;
    let mut i: usize = 0;
    while i < keyed.len()
        invariant
            i <= keyed.len(),
            children@ == children_of(keyed@.take(i as int), key),
            cpu == total(ProcessesSortOption::Cpu, children@),
            memory == total(ProcessesSortOption::Memory, children@),
            disk == total(ProcessesSortOption::Disk, children@),
            cpu <= i * u64::MAX,
            memory <= i * u64::MAX,
            disk <= i * u64::MAX,
        decreases keyed.len() - i,
    {
        assert(keyed@.take(i + 1).drop_last() =~= keyed@.take(i as int));
        if keyed[i].key == key {
            let child = copy_of(&keyed[i].process);
            cpu = cpu + child.cpu as u128;
            memory = memory + child.memory as u128;
            disk = disk + child.disk as u128;
            let ghost before = children@;
            children.push(child);
            assert(children@.drop_last() =~= before);
        }
        i = i + 1;
    }
    assert(keyed@.take(i as int) =~= keyed@);
    let name = children[0].name.clone();
    ProcessInformations { pid: key, name, cpu: cpu / cores, memory, disk, child_processes: children }
}

/// A key among the group keys has a process under it.
proof fn lemma_key_has_children(keyed: Seq<KeyedProcess>, key: u32)
    requires
        group_keys(keyed).contains(key),
    ensures
        children_of(keyed, key).len() > 0,
    decreases keyed.len(),
{
    if keyed.len() > 0 {
        if keyed.last().key != key {
            let earlier = group_keys(keyed.drop_last());
            if !earlier.contains(keyed.last().key) {
                let i = choose|i: int| 0 <= i < group_keys(keyed).len() && group_keys(keyed)[i] == key;
                assert(earlier[i] == key);
            }
            lemma_key_has_children(keyed.drop_last(), key);
        }
    }
}

/// The processes gathered into groups, one for each key, in the order in
/// which the keys first occur.
pub fn group_processes(keyed: &Vec<KeyedProcess>, physical_core_count: Option<usize>) -> (groups:
    Vec<ProcessInformations>)
    ensures
        is_grouping(groups@, keyed@, cores_counted(physical_core_count)),
        group_pids(groups@).no_duplicates(),
        forall|option: ProcessesSortOption|
            option != ProcessesSortOption::Cpu ==> #[trigger] groups_total(option, groups@)
                == total(option, leaves(keyed@)),
{
    let cores: u128 = match physical_core_count {
        Some(count) => if count > 0 {
            count as u128
        } else {
            1
        },
        None => 1,
    };
    let keys = distinct_keys(keyed);
    let mut groups: Vec<ProcessInformations> = Vec::new();
    let mut i: usize = 0;
    while i < keys.len()
        invariant
            i <= keys.len(),
            cores == cores_counted(physical_core_count),
            keys@ == group_keys(keyed@),
            groups@.len() == i,
            forall|j: int|
                0 <= j < i ==> is_group_of(#[trigger] groups@[j], keyed@, keys@[j], cores as int),
        decreases keys.len() - i,
    {
        proof {
            lemma_key_has_children(keyed@, keys@[i as int]);
        }
        let group = gather(keyed, keys[i], cores);
        groups.push(group);
        i = i + 1;
    }
    proof {
        lemma_groups_are_keyed_apart(groups@, keyed@, cores_counted(physical_core_count));
        lemma_grouping_is_lossless(
            groups@,
            keyed@,
            cores_counted(physical_core_count),
            ProcessesSortOption::Memory,
        );
        lemma_grouping_is_lossless(
            groups@,
            keyed@,
            cores_counted(physical_core_count),
            ProcessesSortOption::Disk,
        );
    }
    groups
}

/// What the processes under each of `keys` use together of what `option`
/// names.
pub open spec fn total_under(
    option: ProcessesSortOption,
    keyed: Seq<KeyedProcess>,
    keys: Seq<u32>,
) -> int
    decreases keys.len(),
{
    if keys.len() == 0 {
        0
    } else {
        total_under(option, keyed, keys.drop_last()) + total(
            option,
            children_of(keyed, keys.last()),
        )
    }
}

/// No key occurs twice among the group keys.
pub proof fn lemma_group_keys_distinct(keyed: Seq<KeyedProcess>)
    ensures
        group_keys(keyed).no_duplicates(),
    decreases keyed.len(),
{
    if keyed.len() > 0 {
        lemma_group_keys_distinct(keyed.drop_last());
    }
}

/// A key that is no group key has no process under it.
proof fn lemma_unknown_key_has_no_children(keyed: Seq<KeyedProcess>, key: u32)
    requires
        !group_keys(keyed).contains(key),
    ensures
        children_of(keyed, key) == Seq::<SpecificProcess>::empty(),
    decreases keyed.len(),
{
    if keyed.len() > 0 {
        let earlier = group_keys(keyed.drop_last());
        if earlier.contains(keyed.last().key) {
            assert(keyed.last().key != key);
        } else {
            assert(earlier.push(keyed.last().key).last() == keyed.last().key);
            assert(keyed.last().key != key);
            if earlier.contains(key) {
                let i = choose|i: int| 0 <= i < earlier.len() && earlier[i] == key;
                assert(earlier.push(keyed.last().key)[i] == key);
            }
        }
        lemma_unknown_key_has_no_children(keyed.drop_last(), key);
    }
}

/// One more process adds what it uses to the total under keys that hold its
/// key once, and nothing under keys that do not hold it.
proof fn lemma_total_under_push(
    option: ProcessesSortOption,
    keyed: Seq<KeyedProcess>,
    next: KeyedProcess,
    keys: Seq<u32>,
)
    requires
        keys.no_duplicates(),
    ensures
        total_under(option, keyed.push(next), keys) == total_under(option, keyed, keys) + if keys.contains(
            next.key,
        ) {
            leaf_value(option, next.process)
        } else {
            0
        },
    decreases keys.len(),
{
    if keys.len() > 0 {
        let longer = keyed.push(next);
        assert(longer.drop_last() =~= keyed);
        lemma_total_under_push(option, keyed, next, keys.drop_last());
        if keys.last() == next.key {
            assert(children_of(longer, keys.last()).drop_last() =~= children_of(keyed, keys.last()));
            if keys.drop_last().contains(next.key) {
                let i = choose|i: int|
                    0 <= i < keys.drop_last().len() && keys.drop_last()[i] == next.key;
                assert(keys[i] == keys[keys.len() - 1]);
            }
        } else {
            if keys.contains(next.key) {
                let i = choose|i: int| 0 <= i < keys.len() && keys[i] == next.key;
                assert(keys.drop_last()[i] == next.key);
            }
        }
    }
}

/// The totals under the group keys come to what all processes use.
proof fn lemma_total_under_group_keys(option: ProcessesSortOption, keyed: Seq<KeyedProcess>)
    ensures
        total_under(option, keyed, group_keys(keyed)) == total(option, leaves(keyed)),
    decreases keyed.len(),
{
    if keyed.len() > 0 {
        let shorter = keyed.drop_last();
        let next = keyed.last();
        let earlier = group_keys(shorter);
        assert(shorter.push(next) =~= keyed);
        assert(leaves(keyed).drop_last() =~= leaves(shorter));
        lemma_total_under_group_keys(option, shorter);
        lemma_group_keys_distinct(shorter);
        lemma_total_under_push(option, shorter, next, earlier);
        assert(total(option, leaves(keyed)) == total(option, leaves(shorter)) + leaf_value(
            option,
            next.process,
        ));
        if !earlier.contains(next.key) {
            let only = children_of(keyed, next.key);
            lemma_unknown_key_has_no_children(shorter, next.key);
            assert(group_keys(keyed).drop_last() =~= earlier);
            assert(only =~= seq![next.process]);
            assert(only.drop_last() =~= Seq::<SpecificProcess>::empty());
            assert(total(option, only.drop_last()) == 0);
            assert(total(option, only) == leaf_value(option, next.process));
        }
    }
}

/// Groups that sum up their processes hold together what is under their
/// keys.
proof fn lemma_groups_total_under(
    option: ProcessesSortOption,
    groups: Seq<ProcessInformations>,
    keyed: Seq<KeyedProcess>,
    keys: Seq<u32>,
)
    requires
        groups.len() == keys.len(),
        forall|i: int|
            0 <= i < groups.len() ==> group_value(option, #[trigger] groups[i]) == total(
                option,
                children_of(keyed, keys[i]),
            ),
    ensures
        groups_total(option, groups) == total_under(option, keyed, keys),
    decreases groups.len(),
{
    if groups.len() > 0 {
        lemma_groups_total_under(option, groups.drop_last(), keyed, keys.drop_last());
    }
}

/// No two groups have the same key.
pub proof fn lemma_groups_are_keyed_apart(
    groups: Seq<ProcessInformations>,
    keyed: Seq<KeyedProcess>,
    cores: int,
)
    requires
        is_grouping(groups, keyed, cores),
    ensures
        group_pids(groups) == group_keys(keyed),
        group_pids(groups).no_duplicates(),
{
    lemma_group_keys_distinct(keyed);
    assert(group_pids(groups) =~= group_keys(keyed));
}

/// Grouping loses nothing: the memory that the groups hold together is the
/// memory that the processes use together, and so for the bytes they moved.
pub proof fn lemma_grouping_is_lossless(
    groups: Seq<ProcessInformations>,
    keyed: Seq<KeyedProcess>,
    cores: int,
    option: ProcessesSortOption,
)
    requires
        is_grouping(groups, keyed, cores),
        option != ProcessesSortOption::Cpu,
    ensures
        groups_total(option, groups) == total(option, leaves(keyed)),
{
    lemma_groups_total_under(option, groups, keyed, group_keys(keyed));
    lemma_total_under_group_keys(option, keyed);
}

/// The positions that `pairs` name, in their order.
pub open spec fn positions<T>(pairs: Seq<(usize, T)>) -> Seq<usize> {
    Seq::new(pairs.len(), |i: int| pairs[i].0)
}

fn values_of_groups(option: ProcessesSortOption, groups: &Vec<ProcessInformations>) -> (values: Vec<
    u128,
>)
    ensures
        values@ == group_values(option, groups@),
{
    let mut values: Vec<u128> = Vec::new();
    let mut i: usize = 0;
    while i < groups.len()
        invariant
            i <= groups.len(),
            values@ == group_values(option, groups@).take(i as int),
        decreases groups.len() - i,
    {
        let value = match option {
            ProcessesSortOption::Cpu => groups[i].cpu,
            ProcessesSortOption::Memory => groups[i].memory,
            ProcessesSortOption::Disk => groups[i].disk,
        };
        values.push(value);
        i = i + 1;
        assert(values@ =~= group_values(option, groups@).take(i as int));
    }
    assert(values@ =~= group_values(option, groups@));
    values
}

fn values_of_leaves(option: ProcessesSortOption, leaves: &Vec<SpecificProcess>) -> (values: Vec<
    u128,
>)
    ensures
        values@ == leaf_values(option, leaves@),
{
    let mut values: Vec<u128> = Vec::new();
    let mut i: usize = 0;
    while i < leaves.len()
        invariant
            i <= leaves.len(),
            values@ == leaf_values(option, leaves@).take(i as int),
        decreases leaves.len() - i,
    {
        let value = match option {
            ProcessesSortOption::Cpu => leaves[i].cpu,
            ProcessesSortOption::Memory => leaves[i].memory,
            ProcessesSortOption::Disk => leaves[i].disk,
        };
        values.push(value as u128);
        i = i + 1;
        assert(values@ =~= leaf_values(option, leaves@).take(i as int));
    }
    assert(values@ =~= leaf_values(option, leaves@));
    values
}

fn pick<'a, T>(items: &'a Vec<T>, order: &Vec<usize>) -> (picked: Vec<(usize, &'a T)>)
    requires
        forall|i: int| 0 <= i < order@.len() ==> #[trigger] order@[i] < items@.len(),
    ensures
        positions(picked@) == order@,
        forall|i: int|
            0 <= i < picked@.len() ==> *(#[trigger] picked@[i]).1 == items@[picked@[i].0 as int],
{
    let mut picked: Vec<(usize, &'a T)> = Vec::new();
    let mut i: usize = 0;
    while i < order.len()
        invariant
            i <= order.len(),
            forall|j: int| 0 <= j < order@.len() ==> #[trigger] order@[j] < items@.len(),
            picked@.len() == i,
            forall|j: int| 0 <= j < i ==> (#[trigger] picked@[j]).0 == order@[j],
            forall|j: int|
                0 <= j < i ==> *(#[trigger] picked@[j]).1 == items@[picked@[j].0 as int],
        decreases order.len() - i,
    {
        let position = order[i];
        picked.push((position, &items[position]));
        i = i + 1;
    }
    assert(positions(picked@) =~= order@);
    picked
}

/// The groups in the order in which the table shows them: the largest
/// user of what `sorted_option` names first, groups that use the same in
/// the order they are held in. Each group comes with its position in
/// `processes`.
pub fn get_sorted_processes<'a>(
    sorted_option: &ProcessesSortOption,
    processes: &'a Vec<ProcessInformations>,
) -> (sorted: Vec<(usize, &'a ProcessInformations)>)
    ensures
        is_largest_first(positions(sorted@), group_values(*sorted_option, processes@)),
        forall|i: int|
            0 <= i < sorted@.len() ==> *(#[trigger] sorted@[i]).1 == processes@[sorted@[i].0 as int],
        forall|i: int, j: int|
            0 <= i < j < sorted@.len() ==> group_value(*sorted_option, *(#[trigger] sorted@[i]).1)
                >= group_value(*sorted_option, *(#[trigger] sorted@[j]).1),
{
    let values = values_of_groups(*sorted_option, processes);
    let order = largest_first(&values);
    let sorted = pick(processes, &order);
    assert forall|i: int, j: int| 0 <= i < j < sorted@.len() implies group_value(
        *sorted_option,
        *(#[trigger] sorted@[i]).1,
    ) >= group_value(*sorted_option, *(#[trigger] sorted@[j]).1) by {
        assert(comes_before(values@, order@[i] as int, order@[j] as int));
        assert(positions(sorted@)[i] == sorted@[i].0);
        assert(positions(sorted@)[j] == sorted@[j].0);
    }
    sorted
}

/// The processes of a group in the order in which the table shows them,
/// as `get_sorted_processes` orders the groups.
pub fn get_sorted_children<'a>(
    sorted_option: &ProcessesSortOption,
    children: &'a Vec<SpecificProcess>,
) -> (sorted: Vec<(usize, &'a SpecificProcess)>)
    ensures
        is_largest_first(positions(sorted@), leaf_values(*sorted_option, children@)),
        forall|i: int|
            0 <= i < sorted@.len() ==> *(#[trigger] sorted@[i]).1 == children@[sorted@[i].0 as int],
        forall|i: int, j: int|
            0 <= i < j < sorted@.len() ==> leaf_value(*sorted_option, *(#[trigger] sorted@[i]).1)
                >= leaf_value(*sorted_option, *(#[trigger] sorted@[j]).1),
{
    let values = values_of_leaves(*sorted_option, children);
    let order = largest_first(&values);
    let sorted = pick(children, &order);
    assert forall|i: int, j: int| 0 <= i < j < sorted@.len() implies leaf_value(
        *sorted_option,
        *(#[trigger] sorted@[i]).1,
    ) >= leaf_value(*sorted_option, *(#[trigger] sorted@[j]).1) by {
        assert(comes_before(values@, order@[i] as int, order@[j] as int));
        assert(positions(sorted@)[i] == sorted@[i].0);
        assert(positions(sorted@)[j] == sorted@[j].0);
    }
    sorted
}

/// The heading of a column of the table, without the mark of the order.
pub open spec fn column_name(column: ProcessesSortOption) -> Seq<char> {
    match column {
        ProcessesSortOption::Cpu => "CPU "@,
        ProcessesSortOption::Memory => "MEMORY "@,
        ProcessesSortOption::Disk => "DISK "@,
    }
}

/// The heading of a column as the table shows it: the column by which the
/// table is ordered carries a mark.
pub open spec fn column_heading(
    column: ProcessesSortOption,
    sorted_option: ProcessesSortOption,
) -> Seq<char> {
    if column == sorted_option {
        column_name(column) + "\u{23F7}"@
    } else {
        column_name(column)
    }
}

/// The heading of a column of the table that is ordered by
/// `sorted_option`.
pub fn column_title(column: ProcessesSortOption, sorted_option: ProcessesSortOption) -> (title:
    String)
    ensures
        title@ == column_heading(column, sorted_option),
{
    let mut title = match column {
        ProcessesSortOption::Cpu => String::from_str("CPU "),
        ProcessesSortOption::Memory => String::from_str("MEMORY "),
        ProcessesSortOption::Disk => String::from_str("DISK "),
    };
    if column == sorted_option {
        title.append("\u{23F7}");
    }
    title
}

} // verus!
