use process_manager::collector::{ProcessManagerAppMutexData, SystemReading, FIRST_COLOR_INDEX};
use process_manager::cpu::CpuReading;
use process_manager::disk::{DiskKind, DiskPerformance, DiskReading};
use process_manager::network::NetworkReading;
use process_manager::process::{
    get_sorted_children, KeyedProcess, ProcessReading, ProcessesSortOption, SpecificProcess,
    ORPHAN_KEY_HIGH, ORPHAN_KEY_LOW,
};

fn cpu_reading(name: &str, usage: u64) -> CpuReading {
    CpuReading { name: String::from(name), usage }
}

fn interface(last: u8, received: u64, transmitted: u64) -> NetworkReading {
    NetworkReading {
        interface_name: format!("eth{}", last),
        mac_address: [0xaa, 0xbb, 0xcc, 0, 0, last],
        received,
        transmitted,
        total_errors_on_received: 1,
        total_errors_on_transmitted: 2,
    }
}

fn disk(mount_point: &str, counters: Option<(u64, u64)>) -> DiskReading {
    DiskReading {
        name: String::from("disk"),
        mount_point: String::from(mount_point),
        total_space: 1 << 40,
        available_space: 1 << 39,
        kind: DiskKind::Hdd,
        file_system: b"ext4".to_vec(),
        is_removable: false,
        performance: counters
            .map(|(bytes_read, bytes_written)| DiskPerformance { bytes_read, bytes_written }),
    }
}

fn process(pid: u32, parent: Option<u32>, memory: u64) -> ProcessReading {
    ProcessReading {
        pid,
        name: format!("task{}", pid),
        parent,
        cpu: 1_000 * pid as u64,
        memory,
        disk_read: pid as u64,
        disk_written: 1,
    }
}

fn reading(round: u64) -> SystemReading {
    SystemReading {
        global_cpu_usage: 12_345 + round,
        used_memory: 4_000 + round,
        total_memory: 16_000,
        used_swap: round,
        total_swap: 0,
        cpus: vec![cpu_reading("cpu0", 10 + round), cpu_reading("cpu1", 20 + round)],
        networks: vec![interface(1, 1_000 * round, 10 * round), interface(2, 5 * round, 7 * round)],
        disks: vec![disk("/", Some((1024 * 1024 * round, 0))), disk("/home", None)],
        processes: vec![
            process(2, Some(1), 100),
            process(3, Some(1), 200),
            process(4, Some(2), 1_000),
            process(1, None, 50),
        ],
        physical_core_count: Some(2),
    }
}

fn samples<T: Copy>(points: &process_manager::history::Data<T>) -> Vec<T> {
    points.data_iter().copied().collect()
}

#[test]
fn state_is_seeded_from_the_first_reading() {
    let data = ProcessManagerAppMutexData::new(&reading(0));
    assert_eq!(data.total_cpu_usage(), 0);
    assert_eq!(data.memory_usage(), 0);
    assert_eq!(data.swap_usage(), 0);
    assert_eq!(samples(data.cpu_performance_data_points()), Vec::<u64>::new());
    assert_eq!(samples(data.memory_usage_data_points()), Vec::<u128>::new());
    assert_eq!(samples(data.swap_usage_data_points()), Vec::<u128>::new());
    assert_eq!(data.cpus_performance_data_points().len(), 2);
    assert_eq!(data.cpus_performance_data_points()[0].name(), "cpu0");
    assert_eq!(data.cpus_performance_data_points()[0].color_index(), FIRST_COLOR_INDEX as u128);
    assert_eq!(data.cpus_performance_data_points()[1].color_index(), 3);
    assert!(!data.cpus_performance_data_points()[1].is_display_on_plot());
    assert_eq!(data.network_informations().len(), 2);
    assert_eq!(data.network_informations()[1].number(), 2);
    assert!(data.network_informations()[1].is_display_on_plot());
    assert_eq!(data.disks_informations().len(), 2);
    assert_eq!(data.disks_informations()[1].mount_point(), "/home    ");
    assert_eq!(data.network_y_plot_bound(), 100);
    assert_eq!(data.network_plot_edge(), 119);
    assert_eq!(data.process_informations().len(), 0);
    assert_eq!(data.clicked_process(), None);
    assert_eq!(data.processes_sort_option(), ProcessesSortOption::Memory);
    assert!(data.accepts(&reading(0)));
}

#[test]
fn a_round_takes_the_scalars_in() {
    let mut data = ProcessManagerAppMutexData::new(&reading(0));
    data.update_system_info(&reading(1), 1_000);
    assert_eq!(data.total_cpu_usage(), 12);
    assert_eq!(data.memory_usage(), 4_001);
    assert_eq!(data.swap_usage(), 1);
    assert_eq!(samples(data.cpu_performance_data_points()), vec![12_346]);
    assert_eq!(samples(data.memory_usage_data_points()), vec![25_006]);
    assert_eq!(samples(data.swap_usage_data_points()), vec![0]);
    data.update_system_info(&reading(500), 2_000);
    assert_eq!(data.total_cpu_usage(), 13);
    assert_eq!(samples(data.cpu_performance_data_points()), vec![12_346, 12_845]);
    assert_eq!(samples(data.memory_usage_data_points()), vec![25_006, 28_125]);
}

#[test]
fn shares_of_memory_stay_within_the_whole() {
    let mut data = ProcessManagerAppMutexData::new(&reading(0));
    for used in [0u64, 1, 8_000, 15_999, 16_000] {
        let mut next = reading(1);
        next.used_memory = used;
        next.used_swap = used;
        next.total_swap = 16_000;
        data.update_system_info(&next, used);
    }
    assert_eq!(samples(data.memory_usage_data_points()), vec![0, 6, 50_000, 99_993, 100_000]);
    assert_eq!(samples(data.swap_usage_data_points()), vec![0, 6, 50_000, 99_993, 100_000]);
}

#[test]
fn scalar_histories_keep_twenty_samples() {
    let mut data = ProcessManagerAppMutexData::new(&reading(0));
    for round in 1..=25u64 {
        data.update_system_info(&reading(round), round * 1_000);
    }
    let expected: Vec<u64> = (6..=25).map(|round| 12_345 + round).collect();
    assert_eq!(samples(data.cpu_performance_data_points()), expected);
    assert_eq!(samples(data.memory_usage_data_points()).len(), 20);
    assert_eq!(samples(data.swap_usage_data_points()).len(), 20);
}

#[test]
fn a_round_refreshes_cores_interfaces_and_disks() {
    let mut data = ProcessManagerAppMutexData::new(&reading(0));
    data.set_cpu_display_on_plot(1, true);
    data.update_system_info(&reading(1), 1_000);
    data.update_system_info(&reading(2), 2_000);
    let cpus = data.cpus_performance_data_points();
    assert_eq!(cpus[0].usage(), 12);
    assert!(cpus[0].plot_points().is_none());
    assert_eq!(samples(cpus[1].plot_points().unwrap()), vec![21, 22]);
    let networks = data.network_informations();
    let first = networks[0].network_display().unwrap();
    assert_eq!(samples(first.received_plot_points()), vec![1_000, 2_000]);
    assert_eq!(samples(first.transmitted_plot_points()), vec![10, 20]);
    assert_eq!(networks[0].total_errors_on_received(), 1);
    assert_eq!(networks[1].total_errors_on_transmitted(), 2);
    assert_eq!(data.network_y_plot_bound(), 2_000);
    assert_eq!(data.network_plot_edge(), 2_380);
    let disks = data.disks_informations();
    assert_eq!(samples(disks[0].plot_points()), vec![1_024_000]);
    assert_eq!(disks[0].y_max_bound(), 1_024_000);
    assert_eq!(disks[0].plot_edge(), 1_259_520);
    assert_eq!(samples(disks[1].plot_points()), Vec::<i128>::new());
    assert_eq!(disks[1].y_max_bound(), 450_000);
}

#[test]
fn a_round_groups_the_processes() {
    let mut data = ProcessManagerAppMutexData::new(&reading(0));
    data.update_system_info(&reading(1), 1_000);
    let groups = data.process_informations();
    assert_eq!(groups.len(), 3);
    assert_eq!(groups[0].pid, 1);
    assert_eq!(groups[0].name, "task2");
    assert_eq!(groups[0].memory, 300);
    assert_eq!(groups[0].cpu, 2_500);
    assert_eq!(groups[0].disk, 7);
    assert_eq!(groups[1].pid, 2);
    assert_eq!(groups[1].memory, 1_000);
    assert!(ORPHAN_KEY_LOW <= groups[2].pid && groups[2].pid < ORPHAN_KEY_HIGH);
    assert_eq!(groups[2].name, "task1");
    let of_groups: u128 = groups.iter().map(|group| group.memory).sum();
    assert_eq!(of_groups, 1_350);
}

#[test]
fn a_round_with_given_keys_is_determined() {
    let mut data = ProcessManagerAppMutexData::new(&reading(0));
    let keyed = vec![
        KeyedProcess {
            key: 77,
            process: SpecificProcess { pid: 1, name: String::from("a"), cpu: 9, memory: 5, disk: 1 },
        },
        KeyedProcess {
            key: 77,
            process: SpecificProcess { pid: 2, name: String::from("b"), cpu: 9, memory: 7, disk: 2 },
        },
    ];
    data.apply_system_info(&reading(1), &keyed, 1_000);
    let groups = data.process_informations();
    assert_eq!(groups.len(), 1);
    assert_eq!(groups[0].pid, 77);
    assert_eq!(groups[0].name, "a");
    assert_eq!(groups[0].memory, 12);
    assert_eq!(groups[0].cpu, 9);
    assert_eq!(groups[0].disk, 3);
    assert_eq!(data.total_cpu_usage(), 12);
}

#[test]
fn the_table_is_ordered_by_the_chosen_column() {
    let mut data = ProcessManagerAppMutexData::new(&reading(0));
    data.update_system_info(&reading(1), 1_000);
    let by_memory: Vec<u128> = data.sorted_processes().iter().map(|(_, group)| group.memory).collect();
    assert_eq!(by_memory, vec![1_000, 300, 50]);
    data.set_processes_sort_option(ProcessesSortOption::Cpu);
    assert_eq!(data.processes_sort_option(), ProcessesSortOption::Cpu);
    let by_cpu: Vec<u128> = data.sorted_processes().iter().map(|(_, group)| group.cpu).collect();
    assert_eq!(by_cpu, vec![2_500, 2_000, 500]);
    data.set_processes_sort_option(ProcessesSortOption::Disk);
    let by_disk: Vec<usize> = data.sorted_processes().iter().map(|(position, _)| *position).collect();
    assert_eq!(by_disk, vec![0, 1, 2]);
}

#[test]
fn a_click_selects_a_group_and_a_second_click_closes_it() {
    let mut data = ProcessManagerAppMutexData::new(&reading(0));
    data.update_system_info(&reading(1), 1_000);
    assert!(data.clicked_group().is_none());
    data.click_process(1);
    assert_eq!(data.clicked_process(), Some(1));
    let group = data.clicked_group().unwrap();
    assert_eq!(group.name, "task2");
    let children: Vec<u32> = get_sorted_children(&data.processes_sort_option(), &group.child_processes)
        .iter()
        .map(|(_, child)| child.pid)
        .collect();
    assert_eq!(children, vec![3, 2]);
    data.click_process(2);
    assert_eq!(data.clicked_process(), Some(2));
    data.click_process(2);
    assert_eq!(data.clicked_process(), None);
    data.click_process(5);
    assert_eq!(data.clicked_process(), Some(5));
    assert!(data.clicked_group().is_none());
    data.close_clicked_process();
    assert_eq!(data.clicked_process(), None);
}

#[test]
fn the_selection_and_the_order_outlive_a_round() {
    let mut data = ProcessManagerAppMutexData::new(&reading(0));
    data.click_process(1);
    data.set_processes_sort_option(ProcessesSortOption::Disk);
    data.update_system_info(&reading(1), 1_000);
    assert_eq!(data.clicked_process(), Some(1));
    assert_eq!(data.processes_sort_option(), ProcessesSortOption::Disk);
}

#[test]
fn switching_a_plot_off_and_on_resets_its_history() {
    let mut data = ProcessManagerAppMutexData::new(&reading(0));
    data.set_cpu_display_on_plot(0, true);
    data.update_system_info(&reading(1), 1_000);
    data.update_system_info(&reading(2), 2_000);
    data.set_cpu_display_on_plot(0, false);
    data.set_network_display_on_plot(0, false);
    assert!(data.cpus_performance_data_points()[0].plot_points().is_none());
    assert!(data.network_informations()[0].network_display().is_none());
    data.set_cpu_display_on_plot(0, true);
    data.set_network_display_on_plot(0, true);
    assert!(data.cpus_performance_data_points()[0].plot_points().is_none());
    assert!(data.network_informations()[0].network_display().is_none());
    data.update_system_info(&reading(3), 3_000);
    assert_eq!(samples(data.cpus_performance_data_points()[0].plot_points().unwrap()), vec![13]);
    let display = data.network_informations()[0].network_display().unwrap();
    assert_eq!(samples(display.received_plot_points()), vec![3_000]);
    assert_eq!(samples(display.transmitted_plot_points()), vec![30]);
}

#[test]
fn an_unplotted_interface_does_not_raise_the_bound() {
    let mut data = ProcessManagerAppMutexData::new(&reading(0));
    data.set_network_display_on_plot(0, false);
    data.update_system_info(&reading(10), 1_000);
    assert_eq!(data.network_y_plot_bound(), 100);
    data.update_system_info(&reading(100), 2_000);
    assert_eq!(data.network_y_plot_bound(), 700);
}

#[test]
fn switching_a_plot_that_is_not_there_changes_nothing() {
    let mut data = ProcessManagerAppMutexData::new(&reading(0));
    data.set_cpu_display_on_plot(2, true);
    data.set_network_display_on_plot(7, false);
    assert!(!data.cpus_performance_data_points()[0].is_display_on_plot());
    assert!(!data.cpus_performance_data_points()[1].is_display_on_plot());
    assert!(data.network_informations()[0].is_display_on_plot());
    assert!(data.network_informations()[1].is_display_on_plot());
}

#[test]
fn a_round_with_an_unknown_core_is_not_accepted() {
    let data = ProcessManagerAppMutexData::new(&reading(0));
    let mut next = reading(1);
    next.cpus.push(cpu_reading("cpu2", 0));
    assert!(!data.accepts(&next));
}

#[test]
fn a_reading_without_a_tracked_interface_is_not_accepted() {
    let data = ProcessManagerAppMutexData::new(&reading(0));
    let mut next = reading(1);
    next.networks.remove(0);
    assert!(!data.accepts(&next));
    next.cpus.clear();
    next.networks = vec![interface(2, 0, 0), interface(1, 0, 0), interface(3, 0, 0)];
    assert!(data.accepts(&next));
}

#[test]
fn a_disk_that_appears_later_is_tracked() {
    let mut data = ProcessManagerAppMutexData::new(&reading(0));
    let mut next = reading(1);
    next.disks.push(disk("/mnt", Some((0, 0))));
    data.update_system_info(&next, 1_000);
    assert_eq!(data.disks_informations().len(), 3);
    assert_eq!(data.disks_informations()[2].mount_point(), "/mnt     ");
    assert_eq!(data.disks_informations()[2].used_space(), "512.00 GB");
}

#[test]
fn a_reading_with_a_file_system_that_is_no_text_is_not_accepted() {
    let data = ProcessManagerAppMutexData::new(&reading(0));
    let mut next = reading(1);
    next.disks[1].file_system = vec![0x80];
    assert!(!data.accepts(&next));
}
