use process_manager::process::{
    assign_group_keys, column_title, get_sorted_children, get_sorted_processes, group_processes,
    key_process, KeyedProcess, ProcessInformations, ProcessReading, ProcessesSortOption,
    SpecificProcess, ORPHAN_KEY_HIGH, ORPHAN_KEY_LOW,
};

fn process(pid: u32, name: &str, parent: Option<u32>, cpu: u64, memory: u64, disk: u64) -> ProcessReading {
    ProcessReading {
        pid,
        name: String::from(name),
        parent,
        cpu,
        memory,
        disk_read: disk / 2,
        disk_written: disk - disk / 2,
    }
}

fn keyed(key: u32, pid: u32, name: &str, cpu: u64, memory: u64, disk: u64) -> KeyedProcess {
    KeyedProcess { key, process: SpecificProcess { pid, name: String::from(name), cpu, memory, disk } }
}

fn sample() -> Vec<KeyedProcess> {
    vec![
        keyed(1, 10, "shell", 4_000, 100, 7),
        keyed(2, 20, "editor", 10_000, 5_000, 0),
        keyed(1, 11, "compiler", 90_000, 900, 3),
        keyed(3, 30, "player", 1_000, 400, 40),
        keyed(2, 21, "helper", 2_000, 1_000, 5),
        keyed(1, 12, "linker", 6_001, 0, 10),
    ]
}

fn pids(group: &ProcessInformations) -> Vec<u32> {
    group.child_processes.iter().map(|child| child.pid).collect()
}

#[test]
fn a_process_with_a_parent_is_keyed_by_it() {
    let keyed = key_process(&process(7, "child", Some(3), 1, 2, 3), 55_555);
    assert_eq!(keyed.key, 3);
    assert_eq!(keyed.process.pid, 7);
    assert_eq!(keyed.process.name, "child");
    assert_eq!(keyed.process.cpu, 1);
    assert_eq!(keyed.process.memory, 2);
    assert_eq!(keyed.process.disk, 3);
}

#[test]
fn a_process_without_a_parent_is_keyed_as_an_orphan() {
    let keyed = key_process(&process(7, "init", None, 1, 2, 3), 55_555);
    assert_eq!(keyed.key, 55_555);
    assert_eq!(keyed.process.pid, 7);
}

#[test]
fn disk_bytes_are_read_and_written_together() {
    let mut reading = process(7, "copy", Some(1), 0, 0, 0);
    reading.disk_read = 1_000;
    reading.disk_written = 234;
    assert_eq!(key_process(&reading, 0).process.disk, 1_234);
    reading.disk_read = u64::MAX;
    reading.disk_written = 1;
    assert_eq!(key_process(&reading, 0).process.disk, u64::MAX);
}

#[test]
fn orphans_get_keys_from_their_range() {
    let processes: Vec<ProcessReading> = (0..500u32)
        .map(|pid| process(pid, "p", if pid % 2 == 0 { None } else { Some(pid / 10) }, 1, 1, 1))
        .collect();
    let keyed = assign_group_keys(&processes);
    assert_eq!(keyed.len(), 500);
    let mut seen = Vec::new();
    for (reading, keyed) in processes.iter().zip(keyed.iter()) {
        assert_eq!(keyed.process.pid, reading.pid);
        match reading.parent {
            Some(parent) => assert_eq!(keyed.key, parent),
            None => {
                assert!(ORPHAN_KEY_LOW <= keyed.key && keyed.key < ORPHAN_KEY_HIGH);
                seen.push(keyed.key);
            }
        }
    }
    seen.sort();
    seen.dedup();
    assert!(seen.len() > 1);
}

#[test]
fn orphan_range_is_as_wide_as_stated() {
    assert_eq!(ORPHAN_KEY_LOW, 10_000);
    assert_eq!(ORPHAN_KEY_HIGH, 100_000);
}

#[test]
fn processes_are_grouped_by_their_key() {
    let groups = group_processes(&sample(), Some(1));
    assert_eq!(groups.len(), 3);
    assert_eq!(groups[0].pid, 1);
    assert_eq!(groups[1].pid, 2);
    assert_eq!(groups[2].pid, 3);
    assert_eq!(pids(&groups[0]), vec![10, 11, 12]);
    assert_eq!(pids(&groups[1]), vec![20, 21]);
    assert_eq!(pids(&groups[2]), vec![30]);
}

#[test]
fn a_group_is_named_after_its_first_process() {
    let groups = group_processes(&sample(), Some(1));
    assert_eq!(groups[0].name, "shell");
    assert_eq!(groups[1].name, "editor");
    assert_eq!(groups[2].name, "player");
}

#[test]
fn a_group_sums_up_memory_and_disk() {
    let groups = group_processes(&sample(), Some(4));
    assert_eq!(groups[0].memory, 1_000);
    assert_eq!(groups[1].memory, 6_000);
    assert_eq!(groups[2].memory, 400);
    assert_eq!(groups[0].disk, 20);
    assert_eq!(groups[1].disk, 5);
    assert_eq!(groups[2].disk, 40);
}

#[test]
fn a_group_spreads_its_processor_use_over_the_cores() {
    let one = group_processes(&sample(), Some(1));
    assert_eq!(one[0].cpu, 100_001);
    let four = group_processes(&sample(), Some(4));
    assert_eq!(four[0].cpu, 25_000);
    assert_eq!(four[1].cpu, 3_000);
    assert_eq!(four[2].cpu, 250);
}

#[test]
fn an_unknown_number_of_cores_counts_as_one() {
    let unknown = group_processes(&sample(), None);
    assert_eq!(unknown[0].cpu, 100_001);
    let zero = group_processes(&sample(), Some(0));
    assert_eq!(zero[0].cpu, 100_001);
}

#[test]
fn grouping_loses_no_memory() {
    let keyed = sample();
    let of_leaves: u128 = keyed.iter().map(|keyed| keyed.process.memory as u128).sum();
    let groups = group_processes(&keyed, Some(8));
    let of_groups: u128 = groups.iter().map(|group| group.memory).sum();
    assert_eq!(of_groups, of_leaves);
    let disk_of_leaves: u128 = keyed.iter().map(|keyed| keyed.process.disk as u128).sum();
    let disk_of_groups: u128 = groups.iter().map(|group| group.disk).sum();
    assert_eq!(disk_of_groups, disk_of_leaves);
}

#[test]
fn grouping_of_very_large_values_does_not_overflow() {
    let keyed = vec![
        keyed(1, 1, "a", u64::MAX, u64::MAX, u64::MAX),
        keyed(1, 2, "b", u64::MAX, u64::MAX, u64::MAX),
        keyed(1, 3, "c", u64::MAX, u64::MAX, u64::MAX),
    ];
    let groups = group_processes(&keyed, Some(3));
    assert_eq!(groups[0].memory, 3 * (u64::MAX as u128));
    assert_eq!(groups[0].disk, 3 * (u64::MAX as u128));
    assert_eq!(groups[0].cpu, u64::MAX as u128);
}

#[test]
fn no_processes_make_no_groups() {
    assert_eq!(group_processes(&Vec::new(), Some(4)).len(), 0);
}

#[test]
fn groups_are_shown_largest_first() {
    let groups = group_processes(&sample(), Some(1));
    let by_memory: Vec<u32> = get_sorted_processes(&ProcessesSortOption::Memory, &groups)
        .iter()
        .map(|(_, group)| group.pid)
        .collect();
    assert_eq!(by_memory, vec![2, 1, 3]);
    let by_cpu: Vec<u32> = get_sorted_processes(&ProcessesSortOption::Cpu, &groups)
        .iter()
        .map(|(_, group)| group.pid)
        .collect();
    assert_eq!(by_cpu, vec![1, 2, 3]);
    let by_disk: Vec<usize> = get_sorted_processes(&ProcessesSortOption::Disk, &groups)
        .iter()
        .map(|(position, _)| *position)
        .collect();
    assert_eq!(by_disk, vec![2, 0, 1]);
}

#[test]
fn groups_that_use_the_same_stay_in_their_order() {
    let keyed = vec![
        keyed(5, 1, "a", 0, 10, 0),
        keyed(6, 2, "b", 0, 30, 0),
        keyed(7, 3, "c", 0, 10, 0),
        keyed(8, 4, "d", 0, 30, 0),
        keyed(9, 5, "e", 0, 10, 0),
    ];
    let groups = group_processes(&keyed, None);
    let shown: Vec<u32> = get_sorted_processes(&ProcessesSortOption::Memory, &groups)
        .iter()
        .map(|(_, group)| group.pid)
        .collect();
    assert_eq!(shown, vec![6, 8, 5, 7, 9]);
}

#[test]
fn children_are_shown_largest_first() {
    let groups = group_processes(&sample(), Some(1));
    let children = &groups[0].child_processes;
    let by_cpu: Vec<u32> = get_sorted_children(&ProcessesSortOption::Cpu, children)
        .iter()
        .map(|(_, child)| child.pid)
        .collect();
    assert_eq!(by_cpu, vec![11, 12, 10]);
    let by_memory: Vec<u32> = get_sorted_children(&ProcessesSortOption::Memory, children)
        .iter()
        .map(|(_, child)| child.pid)
        .collect();
    assert_eq!(by_memory, vec![11, 10, 12]);
    let by_disk: Vec<usize> = get_sorted_children(&ProcessesSortOption::Disk, children)
        .iter()
        .map(|(position, _)| *position)
        .collect();
    assert_eq!(by_disk, vec![2, 0, 1]);
}

#[test]
fn nothing_to_show_of_no_groups() {
    assert_eq!(get_sorted_processes(&ProcessesSortOption::Cpu, &Vec::new()).len(), 0);
    assert_eq!(get_sorted_children(&ProcessesSortOption::Cpu, &Vec::new()).len(), 0);
}

#[test]
fn the_ordered_column_carries_a_mark() {
    assert_eq!(column_title(ProcessesSortOption::Cpu, ProcessesSortOption::Cpu), "CPU \u{23F7}");
    assert_eq!(column_title(ProcessesSortOption::Memory, ProcessesSortOption::Cpu), "MEMORY ");
    assert_eq!(column_title(ProcessesSortOption::Disk, ProcessesSortOption::Cpu), "DISK ");
    assert_eq!(column_title(ProcessesSortOption::Cpu, ProcessesSortOption::Memory), "CPU ");
    assert_eq!(
        column_title(ProcessesSortOption::Memory, ProcessesSortOption::Memory),
        "MEMORY \u{23F7}"
    );
    assert_eq!(column_title(ProcessesSortOption::Disk, ProcessesSortOption::Disk), "DISK \u{23F7}");
}
