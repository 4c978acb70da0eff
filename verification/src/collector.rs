//! The state that the display reads, and the round that brings it up to
//! date with what was read of the system.

use crate::cpu::{
    cpu_names, cpu_views, reported_names, tracks_cpus, update_cpus, CpuData, CpuReading, CpuView,
};
use crate::disk::{
    all_describable, can_describe, described_all, describe_disks, disk_views, sampled_all,
    update_disks, DiskInformations, DiskReading, DiskView,
};
use crate::history::{newest, Data, HISTORY_LENGTH};
use crate::identity::{
    first_position, holds_all, lemma_first_position_found, lemma_first_position_missing,
};
use crate::network::{
    addresses, network_plot_bound, network_views, plot_bound, reported_addresses, tracks_networks,
    update_networks, NetworkInformations, NetworkReading, NetworkView, NETWORK_FLOOR,
    NETWORK_MARGIN,
};
use crate::order::is_largest_first;
use crate::process::{
    assign_group_keys, cores_counted, get_sorted_processes, group_pids, group_processes,
    group_value, group_values, is_grouping, is_keyed, positions, KeyedProcess, ProcessInformations,
    ProcessReading, ProcessesSortOption,
};
use crate::units::{
    enlarged, lemma_share_of_part, percentage, rounded_whole, share_of, whole_percent,
    with_margin, FULL_SHARE,
};
use vstd::prelude::*;

verus! {

/// The pause between two rounds, in milliseconds.
pub const ROUND_PAUSE_MS: u64 = 1_000;

/// The colour index of the first core; the others follow two apart.
pub const FIRST_COLOR_INDEX: usize = 1;

/// What is read of the system in one round.
pub struct SystemReading {
    /// The use of all cores together, in thousandths of a percent.
    pub global_cpu_usage: u64,
    pub used_memory: u64,
    pub total_memory: u64,
    pub used_swap: u64,
    pub total_swap: u64,
    pub cpus: Vec<CpuReading>,
    pub networks: Vec<NetworkReading>,
    pub disks: Vec<DiskReading>,
    pub processes: Vec<ProcessReading>,
    pub physical_core_count: Option<usize>,
}

/// What the state holds.
pub struct SnapshotView {
    /// The use of all cores together, in whole percent.
    pub total_cpu_usage: u64,
    pub memory_usage: u64,
    pub swap_usage: u64,
    pub network_informations: Seq<NetworkView>,
    pub cpu_performance_data_points: Seq<u64>,
    pub cpus_performance_data_points: Seq<CpuView>,
    pub memory_usage_data_points: Seq<u128>,
    pub disks_informations: Seq<DiskView>,
    pub swap_usage_data_points: Seq<u128>,
    pub network_y_plot_bound: u64,
    pub process_informations: Seq<ProcessInformations>,
    pub clicked_process: Option<u32>,
    pub processes_sort_option: ProcessesSortOption,
}

/// `keyed` holds the processes of `processes`, each under the key of its
/// group.
pub open spec fn keys_assigned(processes: Seq<ProcessReading>, keyed: Seq<KeyedProcess>) -> bool {
    &&& keyed.len() == processes.len()
    &&& forall|i: int| 0 <= i < processes.len() ==> is_keyed(processes[i], #[trigger] keyed[i])
}

impl SnapshotView {
    /// The state can take a reading in: every core that the reading reports
    /// is tracked, every tracked interface is reported, and every disk can
    /// be described.
    pub open spec fn accepts(self, reading: SystemReading) -> bool {
        &&& all_describable(reading.disks@)
        &&& holds_all(cpu_names(self.cpus_performance_data_points), reported_names(reading.cpus@))
        &&& holds_all(
            reported_addresses(reading.networks@),
            addresses(self.network_informations),
        )
    }

    /// The state seeded from a first reading: the cores, interfaces and
    /// disks that it reports, no samples, no processes, the table ordered
    /// by memory.
    pub open spec fn is_seeded(self, reading: SystemReading) -> bool {
        &&& self.total_cpu_usage == 0
        &&& self.memory_usage == 0
        &&& self.swap_usage == 0
        &&& self.network_informations == crate::network::seeded_all(reading.networks@)
        &&& self.cpu_performance_data_points == Seq::<u64>::empty()
        &&& self.cpus_performance_data_points == crate::cpu::seeded_all(
            reading.cpus@,
            FIRST_COLOR_INDEX,
        )
        &&& self.memory_usage_data_points == Seq::<u128>::empty()
        &&& self.disks_informations == described_all(reading.disks@)
        &&& self.swap_usage_data_points == Seq::<u128>::empty()
        &&& self.network_y_plot_bound == NETWORK_FLOOR
        &&& self.process_informations == Seq::<ProcessInformations>::empty()
        &&& self.clicked_process is None
        &&& self.processes_sort_option == ProcessesSortOption::Memory
    }

    /// The state follows from `before` by one round at time `now`, in which
    /// `reading` was read and its processes were keyed as `keyed`.
    pub open spec fn follows(
        self,
        before: SnapshotView,
        reading: SystemReading,
        keyed: Seq<KeyedProcess>,
        now: u64,
    ) -> bool {
        &&& self.total_cpu_usage == rounded_whole(reading.global_cpu_usage as int)
        &&& self.memory_usage == reading.used_memory
        &&& self.swap_usage == reading.used_swap
        &&& self.cpu_performance_data_points == newest(
            before.cpu_performance_data_points.push(reading.global_cpu_usage),
            HISTORY_LENGTH as nat,
        )
        &&& self.memory_usage_data_points == newest(
            before.memory_usage_data_points.push(
                share_of(reading.used_memory as int, reading.total_memory as int) as u128,
            ),
            HISTORY_LENGTH as nat,
        )
        &&& self.swap_usage_data_points == newest(
            before.swap_usage_data_points.push(
                share_of(reading.used_swap as int, reading.total_swap as int) as u128,
            ),
            HISTORY_LENGTH as nat,
        )
        &&& self.cpus_performance_data_points == crate::cpu::refreshed_all(
            before.cpus_performance_data_points,
            reading.cpus@,
        )
        &&& self.network_informations == crate::network::refreshed_all(
            before.network_informations,
            reading.networks@,
        )
        &&& self.network_y_plot_bound == plot_bound(self.network_informations)
        &&& self.disks_informations == sampled_all(before.disks_informations, reading.disks@, now)
        &&& is_grouping(
            self.process_informations,
            keyed,
            cores_counted(reading.physical_core_count),
        )
        &&& self.clicked_process == before.clicked_process
        &&& self.processes_sort_option == before.processes_sort_option
    }

    /// The state after a click on the group `pid`: the group is selected,
    /// or no group where it was selected already.
    pub open spec fn clicked(self, pid: u32) -> SnapshotView {
        SnapshotView {
            clicked_process: if self.clicked_process == Some(pid) {
                None
            } else {
                Some(pid)
            },
            ..self
        }
    }

    /// The state after the plot of the core at `index` was switched on or
    /// off; unchanged where there is no such core.
    pub open spec fn cpu_displayed(self, index: int, on: bool) -> SnapshotView {
        if 0 <= index < self.cpus_performance_data_points.len() {
            SnapshotView {
                cpus_performance_data_points: self.cpus_performance_data_points.update(
                    index,
                    self.cpus_performance_data_points[index].displayed(on),
                ),
                ..self
            }
        } else {
            self
        }
    }

    /// The state after the plot of the interface at `index` was switched on
    /// or off; unchanged where there is no such interface.
    pub open spec fn network_displayed(self, index: int, on: bool) -> SnapshotView {
        if 0 <= index < self.network_informations.len() {
            SnapshotView {
                network_informations: self.network_informations.update(
                    index,
                    self.network_informations[index].displayed(on),
                ),
                ..self
            }
        } else {
            self
        }
    }
}

/// The state that the collector writes and the display reads.
pub struct ProcessManagerAppMutexData {
    total_cpu_usage: u64,
    memory_usage: u64,
    swap_usage: u64,
    network_informations: Vec<NetworkInformations>,
    cpu_performance_data_points: Data<u64>,
    cpus_performance_data_points: Vec<CpuData>,
    memory_usage_data_points: Data<u128>,
    disks_informations: Vec<DiskInformations>,
    swap_usage_data_points: Data<u128>,
    network_y_plot_bound: u64,
    process_informations: Vec<ProcessInformations>,
    clicked_process: Option<u32>,
    processes_sort_option: ProcessesSortOption,
}

impl View for ProcessManagerAppMutexData {
    type V = SnapshotView;

    closed spec fn view(&self) -> SnapshotView {
        SnapshotView {
            total_cpu_usage: self.total_cpu_usage,
            memory_usage: self.memory_usage,
            swap_usage: self.swap_usage,
            network_informations: network_views(self.network_informations@),
            cpu_performance_data_points: self.cpu_performance_data_points@,
            cpus_performance_data_points: cpu_views(self.cpus_performance_data_points@),
            memory_usage_data_points: self.memory_usage_data_points@,
            disks_informations: disk_views(self.disks_informations@),
            swap_usage_data_points: self.swap_usage_data_points@,
            network_y_plot_bound: self.network_y_plot_bound,
            process_informations: self.process_informations@,
            clicked_process: self.clicked_process,
            processes_sort_option: self.processes_sort_option,
        }
    }
}

impl ProcessManagerAppMutexData {
    #[verifier::type_invariant]
    spec fn histories_sized(&self) -> bool {
        &&& self.cpu_performance_data_points.capacity() == HISTORY_LENGTH
        &&& self.memory_usage_data_points.capacity() == HISTORY_LENGTH
        &&& self.swap_usage_data_points.capacity() == HISTORY_LENGTH
    }

    /// The state seeded from a first reading of the system.
    pub fn new(reading: &SystemReading) -> (data: Self)
        requires
            all_describable(reading.disks@),
        ensures
            data@.is_seeded(*reading),
            data@.accepts(*reading),
    {
        let data = ProcessManagerAppMutexData {
            total_cpu_usage: 0,
            memory_usage: 0,
            swap_usage: 0,
            network_informations: NetworkInformations::new(&reading.networks),
            cpu_performance_data_points: Data::new(HISTORY_LENGTH),
            cpus_performance_data_points: CpuData::new(&reading.cpus, FIRST_COLOR_INDEX),
            memory_usage_data_points: Data::new(HISTORY_LENGTH),
            disks_informations: describe_disks(&reading.disks),
            swap_usage_data_points: Data::new(HISTORY_LENGTH),
            network_y_plot_bound: NETWORK_FLOOR,
            process_informations: Vec::new(),
            clicked_process: None,
            processes_sort_option: ProcessesSortOption::Memory,
        };
        proof {
            lemma_seeded_accepts(data@, *reading);
        }
        data
    }

    /// Whether the state can take `reading` in.
    pub fn accepts(&self, reading: &SystemReading) -> (accepted: bool)
        ensures
            accepted == self@.accepts(*reading),
    {
        can_describe(&reading.disks) && tracks_cpus(
            &self.cpus_performance_data_points,
            &reading.cpus,
        ) && tracks_networks(&self.network_informations, &reading.networks)
    }

    /// One round at time `now`, in milliseconds, with the processes keyed as
    /// `keyed`.
    pub fn apply_system_info(
        &mut self,
        reading: &SystemReading,
        keyed: &Vec<KeyedProcess>,
        now: u64,
    )
        requires
            old(self)@.accepts(*reading),
        ensures
            final(self)@.follows(old(self)@, *reading, keyed@, now),
    {
        proof {
            use_type_invariant(&*self);
        }
        let memory = percentage(reading.used_memory, reading.total_memory);
        let swap = percentage(reading.used_swap, reading.total_swap);

        let mut cpus: Vec<CpuData> = Vec::new();
        std::mem::swap(&mut cpus, &mut self.cpus_performance_data_points);
        update_cpus(&mut cpus, &reading.cpus);
        self.cpus_performance_data_points = cpus;

        self.process_informations = group_processes(keyed, reading.physical_core_count);

        let mut disks: Vec<DiskInformations> = Vec::new();
        std::mem::swap(&mut disks, &mut self.disks_informations);
        update_disks(&mut disks, &reading.disks, now);
        self.disks_informations = disks;

        self.total_cpu_usage = whole_percent(reading.global_cpu_usage);
        self.memory_usage = reading.used_memory;
        self.swap_usage = reading.used_swap;

        let mut cpu_points: Data<u64> = Data::new(HISTORY_LENGTH);
        std::mem::swap(&mut cpu_points, &mut self.cpu_performance_data_points);
        cpu_points.push(reading.global_cpu_usage);
        self.cpu_performance_data_points = cpu_points;

        let mut memory_points: Data<u128> = Data::new(HISTORY_LENGTH);
        std::mem::swap(&mut memory_points, &mut self.memory_usage_data_points);
        memory_points.push(memory);
        self.memory_usage_data_points = memory_points;

        let mut swap_points: Data<u128> = Data::new(HISTORY_LENGTH);
        std::mem::swap(&mut swap_points, &mut self.swap_usage_data_points);
        swap_points.push(swap);
        self.swap_usage_data_points = swap_points;

        let mut networks: Vec<NetworkInformations> = Vec::new();
        std::mem::swap(&mut networks, &mut self.network_informations);
        update_networks(&mut networks, &reading.networks);
        self.network_y_plot_bound = network_plot_bound(&networks);
        self.network_informations = networks;
    }

    /// One round at time `now`, in milliseconds. The processes without a
    /// parent are keyed at random.
    pub fn update_system_info(&mut self, reading: &SystemReading, now: u64)
        requires
            old(self)@.accepts(*reading),
        ensures
            exists|keyed: Seq<KeyedProcess>|
                keys_assigned(reading.processes@, keyed) && #[trigger] final(self)@.follows(
                    old(self)@,
                    *reading,
                    keyed,
                    now,
                ),
    {
        let keyed = assign_group_keys(&reading.processes);
        self.apply_system_info(reading, &keyed, now);
        assert(keys_assigned(reading.processes@, keyed@));
    }

    /// A click on the group `pid` in the table: selects the group, or no
    /// group where it was selected already.
    pub fn click_process(&mut self, pid: u32)
        ensures
            final(self)@ == old(self)@.clicked(pid),
    {
        proof {
            use_type_invariant(&*self);
        }
        let selected = match self.clicked_process {
            Some(clicked) => clicked == pid,
            None => false,
        };
        if selected {
            self.clicked_process = None;
        } else {
            self.clicked_process = Some(pid);
        }
    }

    /// Closes the selected group.
    pub fn close_clicked_process(&mut self)
        ensures
            final(self)@ == (SnapshotView { clicked_process: None, ..old(self)@ }),
    {
        proof {
            use_type_invariant(&*self);
        }
        self.clicked_process = None;
    }

    /// Orders the table by what `option` names.
    pub fn set_processes_sort_option(&mut self, option: ProcessesSortOption)
        ensures
            final(self)@ == (SnapshotView { processes_sort_option: option, ..old(self)@ }),
    {
        proof {
            use_type_invariant(&*self);
        }
        self.processes_sort_option = option;
    }

    /// Switches the plot of the core at `index` on or off.
    pub fn set_cpu_display_on_plot(&mut self, index: usize, on: bool)
        ensures
            final(self)@ == old(self)@.cpu_displayed(index as int, on),
    {
        proof {
            use_type_invariant(&*self);
        }
        if index < self.cpus_performance_data_points.len() {
            let mut cpus: Vec<CpuData> = Vec::new();
            std::mem::swap(&mut cpus, &mut self.cpus_performance_data_points);
            let ghost before = cpu_views(cpus@);
            cpus[index].set_display_on_plot(on);
            assert(cpu_views(cpus@) =~= before.update(index as int, before[index as int].displayed(on)));
            self.cpus_performance_data_points = cpus;
        }
    }

    /// Switches the plot of the interface at `index` on or off.
    pub fn set_network_display_on_plot(&mut self, index: usize, on: bool)
        ensures
            final(self)@ == old(self)@.network_displayed(index as int, on),
    {
        proof {
            use_type_invariant(&*self);
        }
        if index < self.network_informations.len() {
            let mut networks: Vec<NetworkInformations> = Vec::new();
            std::mem::swap(&mut networks, &mut self.network_informations);
            let ghost before = network_views(networks@);
            networks[index].set_display_on_plot(on);
            assert(network_views(networks@) =~= before.update(
                index as int,
                before[index as int].displayed(on),
            ));
            self.network_informations = networks;
        }
    }

    /// The groups in the order in which the table shows them.
    pub fn sorted_processes(&self) -> (sorted: Vec<(usize, &ProcessInformations)>)
        ensures
            is_largest_first(
                positions(sorted@),
                group_values(self@.processes_sort_option, self@.process_informations),
            ),
            forall|i: int|
                0 <= i < sorted@.len() ==> *(#[trigger] sorted@[i]).1
                    == self@.process_informations[sorted@[i].0 as int],
            forall|i: int, j: int|
                0 <= i < j < sorted@.len() ==> group_value(
                    self@.processes_sort_option,
                    *(#[trigger] sorted@[i]).1,
                ) >= group_value(self@.processes_sort_option, *(#[trigger] sorted@[j]).1),
    {
        get_sorted_processes(&self.processes_sort_option, &self.process_informations)
    }

    /// The selected group: the first group under the selected key.
    pub fn clicked_group(&self) -> (group: Option<&ProcessInformations>)
        ensures
            match self@.clicked_process {
                Some(pid) => match first_position(group_pids(self@.process_informations), pid) {
                    Some(i) => group matches Some(found) && *found
                        == self@.process_informations[i],
                    None => group is None,
                },
                None => group is None,
            },
    {
        match self.clicked_process {
            Some(pid) => {
                let ghost pids = group_pids(self.process_informations@);
                let mut i: usize = 0;
                while i < self.process_informations.len()
                    invariant
                        i <= self.process_informations.len(),
                        self.clicked_process == Some(pid),
                        pids == group_pids(self.process_informations@),
                        forall|j: int| 0 <= j < i ==> pids[j] != pid,
                    decreases self.process_informations.len() - i,
                {
                    if self.process_informations[i].pid == pid {
                        proof {
                            assert(pids[i as int] == pid);
                            lemma_first_position_found(pids, pid, i as int);
                        }
                        return Some(&self.process_informations[i]);
                    }
                    i = i + 1;
                }
                proof {
                    lemma_first_position_missing(pids, pid);
                }
                None
            },
            None => None,
        }
    }

    /// The upper edge of the network plot: its bound and the margin on top.
    pub fn network_plot_edge(&self) -> (edge: u128)
        ensures
            edge == enlarged(self@.network_y_plot_bound as int, NETWORK_MARGIN as int),
    {
        with_margin(self.network_y_plot_bound, NETWORK_MARGIN)
    }

    pub fn total_cpu_usage(&self) -> (usage: u64)
        ensures
            usage == self@.total_cpu_usage,
    {
        self.total_cpu_usage
    }

    pub fn memory_usage(&self) -> (usage: u64)
        ensures
            usage == self@.memory_usage,
    {
        self.memory_usage
    }

    pub fn swap_usage(&self) -> (usage: u64)
        ensures
            usage == self@.swap_usage,
    {
        self.swap_usage
    }

    pub fn network_informations(&self) -> (networks: &Vec<NetworkInformations>)
        ensures
            network_views(networks@) == self@.network_informations,
    {
        &self.network_informations
    }

    pub fn cpu_performance_data_points(&self) -> (points: &Data<u64>)
        ensures
            points@ == self@.cpu_performance_data_points,
    {
        &self.cpu_performance_data_points
    }

    pub fn cpus_performance_data_points(&self) -> (cpus: &Vec<CpuData>)
        ensures
            cpu_views(cpus@) == self@.cpus_performance_data_points,
    {
        &self.cpus_performance_data_points
    }

    pub fn memory_usage_data_points(&self) -> (points: &Data<u128>)
        ensures
            points@ == self@.memory_usage_data_points,
    {
        &self.memory_usage_data_points
    }

    pub fn disks_informations(&self) -> (disks: &Vec<DiskInformations>)
        ensures
            disk_views(disks@) == self@.disks_informations,
    {
        &self.disks_informations
    }

    pub fn swap_usage_data_points(&self) -> (points: &Data<u128>)
        ensures
            points@ == self@.swap_usage_data_points,
    {
        &self.swap_usage_data_points
    }

    pub fn network_y_plot_bound(&self) -> (bound: u64)
        ensures
            bound == self@.network_y_plot_bound,
    {
        self.network_y_plot_bound
    }

    pub fn process_informations(&self) -> (groups: &Vec<ProcessInformations>)
        ensures
            groups@ == self@.process_informations,
    {
        &self.process_informations
    }

    pub fn clicked_process(&self) -> (clicked: Option<u32>)
        ensures
            clicked == self@.clicked_process,
    {
        self.clicked_process
    }

    pub fn processes_sort_option(&self) -> (option: ProcessesSortOption)
        ensures
            option == self@.processes_sort_option,
    {
        self.processes_sort_option
    }
}

/// A state seeded from a reading can take that reading in.
pub proof fn lemma_seeded_accepts(state: SnapshotView, reading: SystemReading)
    requires
        all_describable(reading.disks@),
        state.is_seeded(reading),
    ensures
        state.accepts(reading),
{
    let names = cpu_names(state.cpus_performance_data_points);
    assert forall|i: int| 0 <= i < reported_names(reading.cpus@).len() implies names.contains(
        #[trigger] reported_names(reading.cpus@)[i],
    ) by {
        assert(names[i] == reported_names(reading.cpus@)[i]);
    }
    let reported = reported_addresses(reading.networks@);
    assert forall|i: int|
        0 <= i < addresses(state.network_informations).len() implies reported.contains(
        #[trigger] addresses(state.network_informations)[i],
    ) by {
        assert(reported[i] == addresses(state.network_informations)[i]);
    }
}

/// After a round the newest samples of memory and swap are shares of the
/// whole wherever no more is in use than there is; the processor's sample
/// is the share that was read.
pub proof fn lemma_round_samples_shares(
    before: SnapshotView,
    after: SnapshotView,
    reading: SystemReading,
    keyed: Seq<KeyedProcess>,
    now: u64,
)
    requires
        after.follows(before, reading, keyed, now),
    ensures
        after.cpu_performance_data_points.len() > 0,
        after.cpu_performance_data_points.last() == reading.global_cpu_usage,
        reading.global_cpu_usage <= FULL_SHARE ==> after.total_cpu_usage <= 100,
        after.memory_usage_data_points.len() > 0,
        reading.used_memory <= reading.total_memory ==> after.memory_usage_data_points.last()
            <= FULL_SHARE,
        after.swap_usage_data_points.len() > 0,
        reading.used_swap <= reading.total_swap ==> after.swap_usage_data_points.last()
            <= FULL_SHARE,
{
    if reading.used_memory <= reading.total_memory {
        lemma_share_of_part(reading.used_memory as int, reading.total_memory as int);
    }
    if reading.used_swap <= reading.total_swap {
        lemma_share_of_part(reading.used_swap as int, reading.total_swap as int);
    }
}

/// Switching a core's plot off and on again leaves the core without a
/// history.
pub proof fn lemma_cpu_switched_off_and_on(state: SnapshotView, index: int)
    requires
        0 <= index < state.cpus_performance_data_points.len(),
    ensures
        state.cpu_displayed(index, false).cpu_displayed(
            index,
            true,
        ).cpus_performance_data_points[index].plot_points is None,
{
}

/// Switching an interface's plot off and on again leaves the interface
/// without a history.
pub proof fn lemma_network_switched_off_and_on(state: SnapshotView, index: int)
    requires
        0 <= index < state.network_informations.len(),
    ensures
        state.network_displayed(index, false).network_displayed(
            index,
            true,
        ).network_informations[index].network_display is None,
{
}

} // verus!
