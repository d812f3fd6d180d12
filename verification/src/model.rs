//! The tracker as mathematics: what it holds, what a refresh does to it and
//! what it shows, stated over maps and sets.
//!
//! The executable tracker is proved against these definitions, and the laws
//! of the tracker are proved from them.

use crate::app::{AppItemView, AppView};
use crate::processes::{
    first_seen, Containerization, ProcessDataView, ProcessItemView, ProcessView, CPU_RATIO_SCALE,
};
use crate::sums::{lemma_sum_seq_is_sum_over, saturate, sum_over, sum_seq};
use crate::text::starts_with;
use vstd::prelude::*;

verus! {

/// The id under which the application of a process is looked up: its control
/// group, or the empty text where it has none.
pub open spec fn cgroup_key(cgroup: Option<Seq<char>>) -> Seq<char> {
    match cgroup {
        Some(path) => path,
        None => Seq::empty(),
    }
}

/// What is measured of a process when the processes of an application are
/// added up.
#[derive(Debug, Clone, Copy, PartialEq, Eq, Structural)]
pub enum Measure {
    /// The memory in use.
    Memory,
    /// The processor time of the latest sample.
    CpuTime,
    /// The processor time of the sample before.
    CpuTimeBefore,
    /// The timestamp of the latest sample.
    Timestamp,
    /// The timestamp of the sample before.
    TimestampBefore,
    /// The share of processor time used between the two samples.
    Ratio,
}

impl Measure {
    /// The measure of one process.
    pub open spec fn of(self, process: ProcessView) -> nat {
        match self {
            Measure::Memory => process.data.memory_usage as nat,
            Measure::CpuTime => process.data.cpu_time as nat,
            Measure::CpuTimeBefore => process.cpu_time_before as nat,
            Measure::Timestamp => process.data.cpu_time_timestamp as nat,
            Measure::TimestampBefore => process.cpu_time_before_timestamp as nat,
            Measure::Ratio => process.cpu_time_ratio() as nat,
        }
    }

    /// The measure of the process that `pid` stands for.
    pub open spec fn at(self, processes: Map<i32, ProcessView>) -> spec_fn(i32) -> nat {
        |pid: i32| self.of(processes[pid])
    }
}

/// The sum of a measure over the processes `pids`.
pub open spec fn total(processes: Map<i32, ProcessView>, pids: Set<i32>, measure: Measure) -> nat {
    sum_over(pids, measure.at(processes))
}

/// The prefix of the id of the desktop portals, which are never shown as applications.
pub const PORTAL_PREFIX: &'static str = "xdg-desktop-portal";

/// The prefix of the command line of the launcher of a sandbox.
pub const SANDBOX_LAUNCHER: &'static str = "bwrap";

/// The name under which the processes of no application are shown.
pub const SYSTEM_PROCESSES_NAME: &'static str = "System Processes";

/// The name of the icon of the processes of no application.
pub const SYSTEM_PROCESSES_ICON: &'static str = "system-processes";

/// Whether a process shows that its application runs in a Flatpak sandbox:
/// it is sandboxed so, and it has a command line that is not the launcher's.
pub open spec fn shows_flatpak(process: ProcessView) -> bool {
    &&& !starts_with(process.data.commandline, SANDBOX_LAUNCHER@)
    &&& process.data.commandline.len() > 0
    &&& process.data.containerization == Containerization::Flatpak
}

impl AppView {
    /// The application with one more process assigned to it.
    pub open spec fn with_process(self, pid: i32) -> AppView {
        AppView { processes: self.processes.push(pid), ..self }
    }

    /// The application with no process assigned to it.
    pub open spec fn without_processes(self) -> AppView {
        AppView { processes: Seq::empty(), ..self }
    }

    /// Whether `pid` is a living process of the application.
    pub open spec fn has_live(self, processes: Map<i32, ProcessView>, pid: i32) -> bool {
        self.processes.contains(pid) && processes.contains_key(pid) && processes[pid].alive
    }

    /// The living processes of the application.
    pub open spec fn live_members(self, processes: Map<i32, ProcessView>) -> Set<i32> {
        Set::new(|pid: i32| self.has_live(processes, pid))
    }

    /// Whether the application has a living process.
    pub open spec fn is_running(self, processes: Map<i32, ProcessView>) -> bool {
        exists|pid: i32| self.has_live(processes, pid)
    }

    /// The sum of a measure over the living processes of the application.
    pub open spec fn total(self, processes: Map<i32, ProcessView>, measure: Measure) -> nat {
        total(processes, self.live_members(processes), measure)
    }

    /// The memory that the living processes use together, at most `usize::MAX`.
    pub open spec fn memory_usage(self, processes: Map<i32, ProcessView>) -> int {
        saturate(self.total(processes, Measure::Memory) as int, usize::MAX as int)
    }

    /// The processor time of the living processes together, at most `u64::MAX`.
    pub open spec fn cpu_time(self, processes: Map<i32, ProcessView>) -> int {
        saturate(self.total(processes, Measure::CpuTime) as int, u64::MAX as int)
    }

    /// The processor time of the samples before together, at most `u64::MAX`.
    pub open spec fn cpu_time_before(self, processes: Map<i32, ProcessView>) -> int {
        saturate(self.total(processes, Measure::CpuTimeBefore) as int, u64::MAX as int)
    }

    /// The sum of the timestamps `measure` of the living processes, at most
    /// `u64::MAX`, divided by the number of processes ever assigned; nothing
    /// where none was assigned.
    pub open spec fn average(self, processes: Map<i32, ProcessView>, measure: Measure) -> int {
        if self.processes.len() == 0 {
            0
        } else {
            saturate(self.total(processes, measure) as int, u64::MAX as int)
                / self.processes.len() as int
        }
    }

    /// The share of processor time of the living processes together, at
    /// most all of it.
    pub open spec fn cpu_time_ratio(self, processes: Map<i32, ProcessView>) -> int {
        saturate(self.total(processes, Measure::Ratio) as int, CPU_RATIO_SCALE as int)
    }

    /// How many living processes the application has.
    pub open spec fn processes_amount(self, processes: Map<i32, ProcessView>) -> nat {
        self.live_members(processes).len()
    }

    /// The sandbox of the application: Flatpak where one of its living
    /// processes shows so, else none.
    pub open spec fn containerization(self, processes: Map<i32, ProcessView>) -> Containerization {
        if exists|pid: i32| self.has_live(processes, pid) && shows_flatpak(processes[pid]) {
            Containerization::Flatpak
        } else {
            Containerization::Uncontained
        }
    }

    /// What the display shows of the application.
    pub open spec fn item(self, processes: Map<i32, ProcessView>) -> AppItemView {
        AppItemView {
            id: Some(self.id),
            display_name: self.display_name,
            icon: self.icon,
            description: self.description,
            memory_usage: self.memory_usage(processes) as usize,
            cpu_time_ratio: self.cpu_time_ratio(processes) as u64,
            processes_amount: self.processes_amount(processes) as usize,
            containerization: self.containerization(processes),
        }
    }
}

/// What the tracker holds: the installed applications by id, the processes
/// it has seen by process id, and the processes that it has assigned to an
/// application.
pub struct ContextView {
    pub apps: Map<Seq<char>, AppView>,
    pub processes: Map<i32, ProcessView>,
    pub assigned: Set<i32>,
}

/// The processes once every one that is not among `seen` counts as dead.
pub open spec fn marked_dead(processes: Map<i32, ProcessView>, seen: Set<i32>) -> Map<
    i32,
    ProcessView,
> {
    Map::new(
        |pid: i32| processes.contains_key(pid),
        |pid: i32|
            if seen.contains(pid) {
                processes[pid]
            } else {
                processes[pid].dead()
            },
    )
}

/// Whether `found` are the processes `pids` in the order `order`, each once.
pub open spec fn is_walk(
    order: Seq<i32>,
    found: Seq<ProcessView>,
    pids: Set<i32>,
    processes: Map<i32, ProcessView>,
) -> bool {
    &&& order.no_duplicates()
    &&& order.to_set() == pids
    &&& found.len() == order.len()
    &&& forall|i: int| 0 <= i < order.len() ==> found[i] == processes[#[trigger] order[i]]
}

/// Whether `found` are the processes `pids`, each once, in some order.
pub open spec fn walks(found: Seq<ProcessView>, pids: Set<i32>, processes: Map<i32, ProcessView>) -> bool {
    exists|order: Seq<i32>| is_walk(order, found, pids, processes)
}

/// The sum of a measure over the processes `found`.
pub open spec fn tally(found: Seq<ProcessView>, measure: Measure) -> nat
    decreases found.len(),
{
    if found.len() == 0 {
        0
    } else {
        tally(found.drop_last(), measure) + measure.of(found.last())
    }
}

/// The process ids that an enumeration lists.
pub open spec fn pids_of(fresh: Seq<ProcessDataView>) -> Set<i32> {
    Set::new(|pid: i32| exists|i: int| 0 <= i < fresh.len() && #[trigger] fresh[i].pid == pid)
}

/// The applications of a scan by id, none with a process; of two with the
/// same id the later one stays.
pub open spec fn installed(apps: Seq<AppView>) -> Map<Seq<char>, AppView>
    decreases apps.len(),
{
    if apps.len() == 0 {
        Map::empty()
    } else {
        installed(apps.drop_last()).insert(apps.last().id, apps.last().without_processes())
    }
}

impl ContextView {
    /// A tracker that knows the applications `apps` and has seen no process.
    pub open spec fn starting(apps: Seq<AppView>) -> ContextView {
        ContextView { apps: installed(apps), processes: Map::empty(), assigned: Set::empty() }
    }

    /// What holds of a tracker at all times: it knows finitely many
    /// applications and processes; every application stands under its own id
    /// and every process under its own process id; it knows every process
    /// that it counts as assigned, and counts every process of an application
    /// as assigned; and no process is listed twice, be it by one application
    /// or by two.
    pub open spec fn wf(self) -> bool {
        &&& self.apps.dom().finite()
        &&& self.processes.dom().finite()
        &&& forall|id: Seq<char>| #[trigger] self.apps.contains_key(id) ==> self.apps[id].id == id
        &&& forall|pid: i32| #[trigger]
            self.processes.contains_key(pid) ==> self.processes[pid].data.pid == pid
        &&& forall|pid: i32| #[trigger]
            self.assigned.contains(pid) ==> self.processes.contains_key(pid)
        &&& forall|id: Seq<char>, pid: i32|
            self.apps.contains_key(id) && #[trigger] self.apps[id].processes.contains(pid)
                ==> self.assigned.contains(pid)
        &&& forall|id: Seq<char>| #[trigger]
            self.apps.contains_key(id) ==> self.apps[id].processes.no_duplicates()
        &&& forall|a: Seq<char>, b: Seq<char>, pid: i32|
            self.apps.contains_key(a) && self.apps.contains_key(b)
                && #[trigger] self.apps[a].processes.contains(pid)
                && #[trigger] self.apps[b].processes.contains(pid) ==> a == b
    }

    /// The tracker once it has taken in a process that it sees for the first
    /// time: the process goes to the application that its control group
    /// names, if there is one, and into the table either way.
    pub open spec fn enrol(self, data: ProcessDataView) -> ContextView {
        let key = cgroup_key(data.cgroup);
        if self.apps.contains_key(key) {
            let app = self.apps[key];
            ContextView {
                apps: self.apps.insert(key, app.with_process(data.pid)),
                processes: self.processes.insert(
                    data.pid,
                    ProcessView { icon: app.icon, ..first_seen(data) },
                ),
                assigned: self.assigned.insert(data.pid),
            }
        } else {
            ContextView { processes: self.processes.insert(data.pid, first_seen(data)), ..self }
        }
    }

    /// The tracker once it has taken in one record of an enumeration: a
    /// process that it knows gets the record as its latest sample; one that
    /// it does not know is skipped where it counts as assigned, else enrolled.
    pub open spec fn observe(self, fresh: ProcessDataView) -> ContextView {
        if self.processes.contains_key(fresh.pid) {
            ContextView {
                processes: self.processes.insert(
                    fresh.pid,
                    self.processes[fresh.pid].updated(fresh),
                ),
                ..self
            }
        } else if self.assigned.contains(fresh.pid) {
            self
        } else {
            self.enrol(fresh)
        }
    }

    /// The tracker once it has taken in the records of an enumeration, one
    /// after the other.
    pub open spec fn observe_all(self, fresh: Seq<ProcessDataView>) -> ContextView
        decreases fresh.len(),
    {
        if fresh.len() == 0 {
            self
        } else {
            self.observe_all(fresh.drop_last()).observe(fresh.last())
        }
    }

    /// The tracker once every process that is not among `seen` counts as dead.
    pub open spec fn mark_dead(self, seen: Set<i32>) -> ContextView {
        ContextView { processes: marked_dead(self.processes, seen), ..self }
    }

    /// The tracker after a refresh with the enumeration `fresh`.
    pub open spec fn refresh(self, fresh: Seq<ProcessDataView>) -> ContextView {
        self.observe_all(fresh).mark_dead(pids_of(fresh))
    }

    /// Whether the tracker lists `pid` as a living process.
    pub open spec fn alive(self, pid: i32) -> bool {
        self.processes.contains_key(pid) && self.processes[pid].alive
    }

    /// The living processes.
    pub open spec fn alive_pids(self) -> Set<i32> {
        Set::new(|pid: i32| self.alive(pid))
    }

    /// Whether the display shows the process: it lives and has a command line.
    pub open spec fn shown(self, pid: i32) -> bool {
        self.alive(pid) && self.processes[pid].data.commandline.len() > 0
    }

    /// The snapshot of the processes for display.
    pub open spec fn process_items(self) -> Map<i32, ProcessItemView> {
        Map::new(|pid: i32| self.shown(pid), |pid: i32| self.processes[pid].item())
    }

    /// Whether the display shows the application `id`: it is installed, it
    /// runs, and it is no desktop portal.
    pub open spec fn listed(self, id: Seq<char>) -> bool {
        &&& self.apps.contains_key(id)
        &&& self.apps[id].is_running(self.processes)
        &&& !starts_with(self.apps[id].id, PORTAL_PREFIX@)
    }

    /// The living processes of the applications that the display shows.
    pub open spec fn claimed(self) -> Set<i32> {
        Set::new(
            |pid: i32|
                exists|id: Seq<char>|
                    self.listed(id) && #[trigger] self.apps[id].has_live(self.processes, pid),
        )
    }

    /// The living processes of the applications among `ids` that the display shows.
    pub open spec fn claimed_among(self, ids: Seq<Seq<char>>) -> Set<i32> {
        Set::new(
            |pid: i32|
                exists|id: Seq<char>|
                    ids.contains(id) && self.listed(id) && #[trigger] self.apps[id].has_live(
                        self.processes,
                        pid,
                    ),
        )
    }

    /// The items of the applications among `ids` that the display shows.
    pub open spec fn items_among(self, ids: Seq<Seq<char>>) -> Map<Option<Seq<char>>, AppItemView> {
        Map::new(
            |key: Option<Seq<char>>|
                match key {
                    Some(id) => ids.contains(id) && self.listed(id),
                    None => false,
                },
            |key: Option<Seq<char>>|
                match key {
                    Some(id) => self.apps[id].item(self.processes),
                    None => self.system_item(),
                },
        )
    }

    /// The living processes of no application that the display shows.
    pub open spec fn system_pids(self) -> Set<i32> {
        Set::new(|pid: i32| self.alive(pid) && !self.claimed().contains(pid))
    }

    /// What the display shows of the processes of no application.
    pub open spec fn system_item(self) -> AppItemView {
        AppItemView {
            id: None,
            display_name: SYSTEM_PROCESSES_NAME@,
            icon: SYSTEM_PROCESSES_ICON@,
            description: None,
            memory_usage: saturate(
                total(self.processes, self.system_pids(), Measure::Memory) as int,
                usize::MAX as int,
            ) as usize,
            cpu_time_ratio: saturate(
                total(self.processes, self.system_pids(), Measure::Ratio) as int,
                u64::MAX as int,
            ) as u64,
            processes_amount: self.system_pids().len() as usize,
            containerization: Containerization::Uncontained,
        }
    }

    /// The snapshot of the applications for display: one entry without an
    /// id for the processes of no application, and one for each application
    /// that the display shows.
    pub open spec fn app_items(self) -> Map<Option<Seq<char>>, AppItemView> {
        Map::new(
            |key: Option<Seq<char>>|
                match key {
                    Some(id) => self.listed(id),
                    None => true,
                },
            |key: Option<Seq<char>>|
                match key {
                    Some(id) => self.apps[id].item(self.processes),
                    None => self.system_item(),
                },
        )
    }
}

/// A sequence with one more element holds what it held and the new element.
pub proof fn lemma_push_contains<T>(s: Seq<T>, last: T, pid: T)
    ensures
        s.push(last).contains(pid) <==> s.contains(pid) || pid == last,
{
    if s.contains(pid) {
        let i = choose|i: int| 0 <= i < s.len() && s[i] == pid;
        assert(s.push(last)[i] == pid);
    }
    if pid == last {
        assert(s.push(last)[s.len() as int] == pid);
    }
    if s.push(last).contains(pid) {
        let i = choose|i: int| 0 <= i < s.push(last).len() && s.push(last)[i] == pid;
        if i < s.len() {
            assert(s[i] == pid);
        }
    }
}

/// The applications of a scan are finitely many, each under its own id and
/// without a process.
pub proof fn lemma_installed(apps: Seq<AppView>)
    ensures
        installed(apps).dom().finite(),
        forall|id: Seq<char>| #[trigger]
            installed(apps).contains_key(id) ==> installed(apps)[id].id == id && installed(
                apps,
            )[id].processes.len() == 0,
    decreases apps.len(),
{
    if apps.len() > 0 {
        lemma_installed(apps.drop_last());
    }
}

/// A tracker that has seen no process is well formed.
pub proof fn lemma_starting_wf(apps: Seq<AppView>)
    ensures
        ContextView::starting(apps).wf(),
{
    lemma_installed(apps);
    let c = ContextView::starting(apps);
    assert forall|id: Seq<char>, pid: i32|
        c.apps.contains_key(id) && #[trigger] c.apps[id].processes.contains(
            pid,
        ) implies c.assigned.contains(pid) by {
        assert(c.apps[id].processes.len() == 0);
    }
}

/// Enrolling a process that the tracker neither knows nor counts as
/// assigned keeps the tracker well formed.
pub proof fn lemma_enrol_wf(c: ContextView, data: ProcessDataView)
    requires
        c.wf(),
        !c.processes.contains_key(data.pid),
        !c.assigned.contains(data.pid),
    ensures
        c.enrol(data).wf(),
{
    let key = cgroup_key(data.cgroup);
    let after = c.enrol(data);
    if c.apps.contains_key(key) {
        let app = c.apps[key];
        assert(!app.processes.contains(data.pid));
        assert forall|id: Seq<char>, pid: i32|
            after.apps.contains_key(id) implies (#[trigger] after.apps[id].processes.contains(pid)
            <==> (c.apps[id].processes.contains(pid) || (id == key && pid == data.pid))) by {
            if id == key {
                lemma_push_contains(app.processes, data.pid, pid);
            }
        }
        assert forall|id: Seq<char>| #[trigger]
            after.apps.contains_key(id) implies after.apps[id].processes.no_duplicates() by {
            if id == key {
                let old_list = app.processes;
                let new_list = old_list.push(data.pid);
                assert forall|i: int, j: int|
                    0 <= i < new_list.len() && 0 <= j < new_list.len() && i != j implies new_list[i]
                    != new_list[j] by {
                    if i < old_list.len() && j < old_list.len() {
                    } else if i < old_list.len() {
                        assert(old_list.contains(old_list[i]));
                    } else {
                        assert(old_list.contains(old_list[j]));
                    }
                }
            } else {
                assert(c.apps.contains_key(id));
            }
        }
        assert forall|a: Seq<char>, b: Seq<char>, pid: i32|
            after.apps.contains_key(a) && after.apps.contains_key(b)
                && #[trigger] after.apps[a].processes.contains(pid)
                && #[trigger] after.apps[b].processes.contains(pid) implies a == b by {
            if pid == data.pid {
                if a != key {
                    assert(c.apps[a].processes.contains(pid));
                }
                if b != key {
                    assert(c.apps[b].processes.contains(pid));
                }
            } else {
                assert(c.apps[a].processes.contains(pid));
                assert(c.apps[b].processes.contains(pid));
            }
        }
        assert forall|id: Seq<char>, pid: i32|
            after.apps.contains_key(id) && #[trigger] after.apps[id].processes.contains(
                pid,
            ) implies after.assigned.contains(pid) by {
            if !(id == key && pid == data.pid) {
                assert(c.apps[id].processes.contains(pid));
            }
        }
        assert forall|id: Seq<char>| #[trigger] after.apps.contains_key(id) implies after.apps[id].id
            == id by {
            assert(c.apps.contains_key(id));
        }
    }
}

/// Taking in one record keeps the tracker well formed.
pub proof fn lemma_observe_wf(c: ContextView, fresh: ProcessDataView)
    requires
        c.wf(),
    ensures
        c.observe(fresh).wf(),
{
    if c.processes.contains_key(fresh.pid) {
    } else if c.assigned.contains(fresh.pid) {
    } else {
        lemma_enrol_wf(c, fresh);
    }
}

/// Taking in an enumeration keeps the tracker well formed.
pub proof fn lemma_observe_all_wf(c: ContextView, fresh: Seq<ProcessDataView>)
    requires
        c.wf(),
    ensures
        c.observe_all(fresh).wf(),
    decreases fresh.len(),
{
    if fresh.len() > 0 {
        lemma_observe_all_wf(c, fresh.drop_last());
        lemma_observe_wf(c.observe_all(fresh.drop_last()), fresh.last());
    }
}

/// Marking processes as dead keeps the tracker well formed.
pub proof fn lemma_mark_dead_wf(c: ContextView, seen: Set<i32>)
    requires
        c.wf(),
    ensures
        c.mark_dead(seen).wf(),
{
    assert(c.mark_dead(seen).processes.dom() =~= c.processes.dom());
}

/// A refresh keeps the tracker well formed.
pub proof fn lemma_refresh_wf(c: ContextView, fresh: Seq<ProcessDataView>)
    requires
        c.wf(),
    ensures
        c.refresh(fresh).wf(),
{
    lemma_observe_all_wf(c, fresh);
    lemma_mark_dead_wf(c.observe_all(fresh), pids_of(fresh));
}

/// A walk adds up to the sum over the processes that it visits.
pub proof fn lemma_tally_is_total(
    order: Seq<i32>,
    found: Seq<ProcessView>,
    pids: Set<i32>,
    processes: Map<i32, ProcessView>,
    measure: Measure,
)
    requires
        is_walk(order, found, pids, processes),
    ensures
        tally(found, measure) == total(processes, pids, measure),
{
    lemma_tally_is_sum_seq(order, found, processes, measure);
    lemma_sum_seq_is_sum_over(order, measure.at(processes));
}

/// A walk adds up to the sum along its order.
pub proof fn lemma_tally_is_sum_seq(
    order: Seq<i32>,
    found: Seq<ProcessView>,
    processes: Map<i32, ProcessView>,
    measure: Measure,
)
    requires
        found.len() == order.len(),
        forall|i: int| 0 <= i < order.len() ==> found[i] == processes[#[trigger] order[i]],
    ensures
        tally(found, measure) == sum_seq(order, measure.at(processes)),
    decreases order.len(),
{
    if order.len() > 0 {
        let shorter = order.drop_last();
        assert forall|i: int| 0 <= i < shorter.len() implies found.drop_last()[i]
            == processes[#[trigger] shorter[i]] by {
            assert(shorter[i] == order[i]);
        }
        lemma_tally_is_sum_seq(shorter, found.drop_last(), processes, measure);
        assert(found.last() == processes[order[order.len() - 1]]);
    }
}

} // verus!
