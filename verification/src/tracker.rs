//! The tracker: it takes in one enumeration of the processes after the
//! other, keeps every process it has seen, assigns each new process to the
//! application that its control group names, and hands out snapshots for
//! display.

use crate::app::{App, AppItem, AppView};
use crate::model::{
    cgroup_key, installed, is_walk, lemma_observe_all_wf, lemma_push_contains, lemma_refresh_wf,
    lemma_starting_wf, lemma_tally_is_total, marked_dead, pids_of, tally, walks, ContextView,
    Measure, PORTAL_PREFIX, SYSTEM_PROCESSES_ICON, SYSTEM_PROCESSES_NAME,
};
use crate::processes::{
    Containerization, EnumerationError, Icon, Process, ProcessData, ProcessDataView, ProcessItem,
    ProcessView,
};
use crate::sums::saturate;
use crate::tables::{
    app_entries, app_item_entries, pid_members, process_entries, process_item_entries, AppItems,
    AppTable, PidSet, ProcessItems, ProcessTable,
};
use crate::text::str_starts_with;
use vstd::prelude::*;
use vstd::string::StringExecFns;

verus! {

/// What three tables hold together, as a tracker.
pub open spec fn context_of(apps: AppTable, processes: ProcessTable, assigned: PidSet) -> ContextView {
    ContextView {
        apps: app_entries(apps),
        processes: process_entries(processes),
        assigned: pid_members(assigned),
    }
}

/// The id under which the application of a process is looked up.
fn cgroup_key_of(data: &ProcessData) -> (key: String)
    ensures
        key@ == cgroup_key(data@.cgroup),
{
    match &data.cgroup {
        Some(path) => path.clone(),
        None => String::new(),
    }
}

/// Takes one record of an enumeration into the tables.
fn observe(apps: &mut AppTable, processes: &mut ProcessTable, assigned: &mut PidSet, data: ProcessData)
    ensures
        context_of(*final(apps), *final(processes), *final(assigned)) == context_of(
            *old(apps),
            *old(processes),
            *old(assigned),
        ).observe(data@),
{
    let ghost before = context_of(*apps, *processes, *assigned);
    let pid = data.pid;
    match processes.remove(pid) {
        Some(mut known) => {
            known.cpu_time_before = known.data.cpu_time;
            known.cpu_time_before_timestamp = known.data.cpu_time_timestamp;
            known.data = data;
            processes.insert(pid, known);
            assert(process_entries(*processes) =~= before.observe(data@).processes);
        },
        None => {
            assert(process_entries(*processes) =~= before.processes);
            if assigned.contains(pid) {
                return ;
            }
            let key = cgroup_key_of(&data);
            let mut process = Process::new(data);
            match apps.remove(key.as_str()) {
                Some(mut app) => {
                    assigned.insert(pid);
                    app.add_process(&mut process);
                    apps.insert(key, app);
                    assert(app_entries(*apps) =~= before.observe(data@).apps);
                },
                None => {
                    assert(app_entries(*apps) =~= before.apps);
                },
            }
            processes.insert(pid, process);
        },
    }
}

/// Takes the records of an enumeration into the tables, one after the other,
/// and hands back the process ids that the enumeration lists.
fn observe_all(
    apps: &mut AppTable,
    processes: &mut ProcessTable,
    assigned: &mut PidSet,
    fresh: Vec<ProcessData>,
) -> (seen: PidSet)
    ensures
        context_of(*final(apps), *final(processes), *final(assigned)) == context_of(
            *old(apps),
            *old(processes),
            *old(assigned),
        ).observe_all(fresh.deep_view()),
        pid_members(seen) == pids_of(fresh.deep_view()),
{
    let ghost before = context_of(*apps, *processes, *assigned);
    let ghost records = fresh.deep_view();
    let ghost items = fresh@;
    let mut seen = PidSet::new();
    assert(records.take(0) =~= Seq::<ProcessDataView>::empty());
    assert(pids_of(records.take(0)) =~= Set::<i32>::empty());
    for data in it: fresh
        invariant
            it.seq() == items,
            items.len() == records.len(),
            forall|i: int| 0 <= i < items.len() ==> (#[trigger] items[i])@ == records[i],
            context_of(*apps, *processes, *assigned) == before.observe_all(
                records.take(it.index() as int),
            ),
            pid_members(seen) == pids_of(records.take(it.index() as int)),
    {
        let ghost i = it.index() as int;
        let ghost taken = records.take(i + 1);
        assert(taken.drop_last() =~= records.take(i));
        assert(taken.last() == data@);
        seen.insert(data.pid);
        assert(pid_members(seen) =~= pids_of(taken)) by {
            assert forall|pid: i32| pids_of(taken).contains(pid) implies pids_of(records.take(i)).insert(
                data.pid,
            ).contains(pid) by {
                let j = choose|j: int| 0 <= j < taken.len() && #[trigger] taken[j].pid == pid;
                if j < i {
                    assert(records.take(i)[j].pid == pid);
                }
            }
            assert forall|pid: i32| pids_of(records.take(i)).insert(data.pid).contains(
                pid,
            ) implies pids_of(taken).contains(pid) by {
                if pid == data.pid {
                    assert(taken[i].pid == pid);
                } else {
                    let j = choose|j: int|
                        0 <= j < records.take(i).len() && #[trigger] records.take(i)[j].pid == pid;
                    assert(taken[j].pid == pid);
                }
            }
        }
        observe(apps, processes, assigned, data);
    }
    assert(records.take(records.len() as int) =~= records);
    seen
}

/// Marks every process of the table that is not among `seen` as dead.
fn mark_dead(processes: &mut ProcessTable, seen: &PidSet)
    ensures
        process_entries(*final(processes)) == marked_dead(
            process_entries(*old(processes)),
            pid_members(*seen),
        ),
{
    let ghost before = process_entries(*processes);
    let ghost listed = pid_members(*seen);
    let pids = processes.pids();
    let mut i: usize = 0;
    assert(process_entries(*processes) =~= Map::new(
        |pid: i32| before.contains_key(pid),
        |pid: i32|
            if !listed.contains(pid) && pids@.take(0).contains(pid) {
                before[pid].dead()
            } else {
                before[pid]
            },
    ));
    while i < pids.len()
        invariant
            i <= pids@.len(),
            pids@.no_duplicates(),
            pids@.to_set() == before.dom(),
            listed == pid_members(*seen),
            process_entries(*processes) == Map::new(
                |pid: i32| before.contains_key(pid),
                |pid: i32|
                    if !listed.contains(pid) && pids@.take(i as int).contains(pid) {
                        before[pid].dead()
                    } else {
                        before[pid]
                    },
            ),
        decreases pids@.len() - i,
    {
        let pid = pids[i];
        assert(pids@.to_set().contains(pid));
        assert(!pids@.take(i as int).contains(pid)) by {
            if pids@.take(i as int).contains(pid) {
                let j = choose|j: int| 0 <= j < i && pids@.take(i as int)[j] == pid;
                assert(pids@[j] == pids@[i as int]);
            }
        }
        assert forall|other: i32| pids@.take(i + 1).contains(other) <==> (pids@.take(
            i as int,
        ).contains(other) || other == pid) by {
            assert(pids@.take(i + 1) =~= pids@.take(i as int).push(pid));
            lemma_push_contains(pids@.take(i as int), pid, other);
        }
        if !seen.contains(pid) {
            match processes.remove(pid) {
                Some(mut process) => {
                    process.alive = false;
                    processes.insert(pid, process);
                },
                None => {},
            }
        }
        assert(process_entries(*processes) =~= Map::new(
            |pid: i32| before.contains_key(pid),
            |pid: i32|
                if !listed.contains(pid) && pids@.take(i + 1).contains(pid) {
                    before[pid].dead()
                } else {
                    before[pid]
                },
        ));
        i = i + 1;
    }
    assert(pids@.take(i as int) =~= pids@);
    assert(process_entries(*processes) =~= marked_dead(before, listed)) by {
        assert forall|pid: i32| before.contains_key(pid) implies pids@.contains(pid) by {
            assert(pids@.to_set().contains(pid));
        }
    }
}

/// Takes an enumeration into the tables and marks what it does not list as dead.
fn refresh_tables(
    apps: &mut AppTable,
    processes: &mut ProcessTable,
    assigned: &mut PidSet,
    fresh: Vec<ProcessData>,
)
    ensures
        context_of(*final(apps), *final(processes), *final(assigned)) == context_of(
            *old(apps),
            *old(processes),
            *old(assigned),
        ).refresh(fresh.deep_view()),
{
    let seen = observe_all(apps, processes, assigned, fresh);
    mark_dead(processes, &seen);
}

/// Puts the applications of a scan into a table, each under its id and
/// without a process.
fn install(apps: Vec<App>) -> (table: AppTable)
    ensures
        app_entries(table) == installed(apps.deep_view()),
{
    let ghost scanned = apps.deep_view();
    let ghost items = apps@;
    let mut table = AppTable::new();
    assert(scanned.take(0) =~= Seq::<AppView>::empty());
    for app in it: apps
        invariant
            it.seq() == items,
            items.len() == scanned.len(),
            forall|i: int| 0 <= i < items.len() ==> (#[trigger] items[i])@ == scanned[i],
            app_entries(table) == installed(scanned.take(it.index() as int)),
    {
        let ghost i = it.index() as int;
        assert(scanned.take(i + 1).drop_last() =~= scanned.take(i));
        let app = app.without_processes();
        let id = String::from_str(app.id());
        table.insert(id, app);
    }
    assert(scanned.take(scanned.len() as int) =~= scanned);
    table
}

/// Decides whether `pids` holds `pid`.
fn holds(pids: &Vec<i32>, pid: i32) -> (r: bool)
    ensures
        r == pids@.contains(pid),
{
    let mut i: usize = 0;
    while i < pids.len()
        invariant
            i <= pids@.len(),
            forall|j: int| 0 <= j < i ==> pids@[j] != pid,
        decreases pids@.len() - i,
    {
        if pids[i] == pid {
            return true;
        }
        i = i + 1;
    }
    false
}

/// The list behind an optional reference.
pub open spec fn list_view(members: Option<&Vec<i32>>) -> Option<Seq<i32>> {
    match members {
        Some(list) => Some(list@),
        None => None,
    }
}

/// The set behind an optional reference.
pub open spec fn set_view(excluded: Option<&PidSet>) -> Option<Set<i32>> {
    match excluded {
        Some(set) => Some(pid_members(*set)),
        None => None,
    }
}

/// Whether `pid` is a living process that `members` holds, where there is
/// such a list, and that `excluded` does not hold, where there is such a set.
pub open spec fn choosable(
    processes: Map<i32, ProcessView>,
    members: Option<Seq<i32>>,
    excluded: Option<Set<i32>>,
    pid: i32,
) -> bool {
    &&& processes.contains_key(pid)
    &&& processes[pid].alive
    &&& (members matches Some(list) ==> list.contains(pid))
    &&& (excluded matches Some(set) ==> !set.contains(pid))
}

/// The living processes of the table that `members` holds and `excluded`
/// does not, each once, in the order in which the table walks them.
pub(crate) fn select<'a>(
    processes: &'a ProcessTable,
    members: Option<&Vec<i32>>,
    excluded: Option<&PidSet>,
) -> (found: Vec<&'a Process>)
    ensures
        walks(
            found.deep_view(),
            Set::new(
                |pid: i32|
                    choosable(
                        process_entries(*processes),
                        list_view(members),
                        set_view(excluded),
                        pid,
                    ),
            ),
            process_entries(*processes),
        ),
{
    let ghost table = process_entries(*processes);
    let ghost list = list_view(members);
    let ghost set = set_view(excluded);
    let pids = processes.pids();
    let mut found: Vec<&'a Process> = Vec::new();
    let ghost mut order: Seq<i32> = Seq::empty();
    let mut i: usize = 0;
    while i < pids.len()
        invariant
            i <= pids@.len(),
            table == process_entries(*processes),
            list == list_view(members),
            set == set_view(excluded),
            pids@.no_duplicates(),
            pids@.to_set() == table.dom(),
            order.no_duplicates(),
            forall|pid: i32|
                order.contains(pid) <==> (pids@.take(i as int).contains(pid) && choosable(
                    table,
                    list,
                    set,
                    pid,
                )),
            found.deep_view().len() == order.len(),
            forall|j: int|
                0 <= j < order.len() ==> found.deep_view()[j] == table[#[trigger] order[j]],
        decreases pids@.len() - i,
    {
        let pid = pids[i];
        assert(pids@.to_set().contains(pid));
        assert(!pids@.take(i as int).contains(pid)) by {
            if pids@.take(i as int).contains(pid) {
                let j = choose|j: int| 0 <= j < i && pids@.take(i as int)[j] == pid;
                assert(pids@[j] == pids@[i as int]);
            }
        }
        assert forall|other: i32| pids@.take(i + 1).contains(other) <==> (pids@.take(
            i as int,
        ).contains(other) || other == pid) by {
            assert(pids@.take(i + 1) =~= pids@.take(i as int).push(pid));
            lemma_push_contains(pids@.take(i as int), pid, other);
        }
        let wanted = match members {
            Some(list) => holds(list, pid),
            None => true,
        };
        let allowed = match excluded {
            Some(set) => !set.contains(pid),
            None => true,
        };
        if wanted && allowed {
            match processes.get(pid) {
                Some(process) => {
                    if process.alive {
                        let ghost before = found.deep_view();
                        let ghost before_order = order;
                        found.push(process);
                        assert(found.deep_view() =~= before.push(process@));
                        proof {
                            order = order.push(pid);
                            assert forall|other: i32| order.contains(other) <==> (
                            before_order.contains(other) || other == pid) by {
                                lemma_push_contains(before_order, pid, other);
                            }
                            assert forall|a: int, b: int|
                                0 <= a < order.len() && 0 <= b < order.len() && a
                                    != b implies order[a] != order[b] by {
                                if a < before_order.len() && b < before_order.len() {
                                } else if a < before_order.len() {
                                    assert(before_order.contains(before_order[a]));
                                } else {
                                    assert(before_order.contains(before_order[b]));
                                }
                            }
                        }
                    }
                },
                None => {},
            }
        }
        i = i + 1;
    }
    proof {
        assert(pids@.take(i as int) =~= pids@);
        let chosen = Set::new(|pid: i32| choosable(table, list, set, pid));
        assert(order.to_set() =~= chosen) by {
            assert forall|pid: i32| chosen.contains(pid) implies order.contains(pid) by {
                assert(pids@.to_set().contains(pid));
            }
        }
        assert(is_walk(order, found.deep_view(), chosen, table));
    }
    found
}

/// The measure of one process.
fn measure_of(measure: Measure, process: &Process) -> (r: u64)
    ensures
        r == measure.of(process@),
{
    match measure {
        Measure::Memory => process.data.memory_usage as u64,
        Measure::CpuTime => process.data.cpu_time,
        Measure::CpuTimeBefore => process.cpu_time_before,
        Measure::Timestamp => process.data.cpu_time_timestamp,
        Measure::TimestampBefore => process.cpu_time_before_timestamp,
        Measure::Ratio => process.cpu_time_ratio(),
    }
}

/// The sum of a measure over `found`, at most `u64::MAX`.
pub(crate) fn saturating_tally(found: &Vec<&Process>, measure: Measure) -> (r: u64)
    ensures
        r == saturate(tally(found.deep_view(), measure) as int, u64::MAX as int),
{
    let mut sum: u64 = 0;
    let mut i: usize = 0;
    assert(found.deep_view().take(0) =~= Seq::<ProcessView>::empty());
    while i < found.len()
        invariant
            i <= found.len(),
            sum == saturate(tally(found.deep_view().take(i as int), measure) as int, u64::MAX as int),
        decreases found.len() - i,
    {
        assert(found.deep_view().take(i + 1).drop_last() =~= found.deep_view().take(i as int));
        assert(found.deep_view().take(i + 1).last() == found[i as int]@);
        sum = sum.saturating_add(measure_of(measure, found[i]));
        i = i + 1;
    }
    assert(found.deep_view().take(i as int) =~= found.deep_view());
    sum
}

/// The tracker: the installed applications, every process seen so far, and
/// which of the processes belong to an application.
#[derive(Debug)]
pub struct AppsContext {
    apps: AppTable,
    processes: ProcessTable,
    processes_assigned_to_apps: PidSet,
}

impl View for AppsContext {
    type V = ContextView;

    closed spec fn view(&self) -> ContextView {
        context_of(self.apps, self.processes, self.processes_assigned_to_apps)
    }
}

impl Default for AppsContext {
    /// A tracker that knows no application and has seen no process.
    fn default() -> (r: Self)
        ensures
            r@ == ContextView::starting(Seq::empty()),
    {
        proof {
            lemma_starting_wf(Seq::empty());
        }
        AppsContext {
            apps: AppTable::new(),
            processes: ProcessTable::new(),
            processes_assigned_to_apps: PidSet::new(),
        }
    }
}

impl AppsContext {
    #[verifier::type_invariant]
    pub(crate) open spec fn well_formed(self) -> bool {
        self@.wf()
    }

    /// The tracker at startup: it knows the applications `apps`, none with a
    /// process yet, and has taken in the first enumeration. It fails only
    /// where the enumeration failed, with the error of the enumeration.
    pub fn new(apps: Vec<App>, enumerated: Result<Vec<ProcessData>, EnumerationError>) -> (r: Result<
        AppsContext,
        EnumerationError,
    >)
        ensures
            match enumerated {
                Ok(fresh) => r is Ok && r->Ok_0@ == ContextView::starting(
                    apps.deep_view(),
                ).observe_all(fresh.deep_view()),
                Err(e) => r == Err::<AppsContext, EnumerationError>(e),
            },
            r matches Ok(context) ==> context@.wf(),
    {
        match enumerated {
            Err(e) => Err(e),
            Ok(fresh) => {
                proof {
                    lemma_starting_wf(apps.deep_view());
                    lemma_observe_all_wf(ContextView::starting(apps.deep_view()), fresh.deep_view());
                }
                let mut table = install(apps);
                let mut processes = ProcessTable::new();
                let mut assigned = PidSet::new();
                let _ = observe_all(&mut table, &mut processes, &mut assigned, fresh);
                Ok(AppsContext { apps: table, processes, processes_assigned_to_apps: assigned })
            },
        }
    }

    /// Takes in a new enumeration: every process that it lists gets the
    /// record as its latest sample or is taken in as new, and every process
    /// that it does not list counts as dead from now on. Where the
    /// enumeration failed the tracker stays as it is and hands the error on.
    pub fn refresh(&mut self, enumerated: Result<Vec<ProcessData>, EnumerationError>) -> (r: Result<
        (),
        EnumerationError,
    >)
        ensures
            match enumerated {
                Ok(fresh) => r is Ok && final(self)@ == old(self)@.refresh(fresh.deep_view()),
                Err(e) => r == Err::<(), EnumerationError>(e) && final(self)@ == old(self)@,
            },
            final(self)@.wf(),
    {
        proof {
            use_type_invariant(&*self);
        }
        match enumerated {
            Err(e) => Err(e),
            Ok(fresh) => {
                proof {
                    lemma_refresh_wf(self@, fresh.deep_view());
                }
                // The tables leave the tracker while they change, so that it is
                // well formed whenever it can be looked at.
                let mut taken = AppsContext {
                    apps: AppTable::new(),
                    processes: ProcessTable::new(),
                    processes_assigned_to_apps: PidSet::new(),
                };
                core::mem::swap(self, &mut taken);
                let AppsContext { mut apps, mut processes, processes_assigned_to_apps } = taken;
                let mut assigned = processes_assigned_to_apps;
                refresh_tables(&mut apps, &mut processes, &mut assigned, fresh);
                *self = AppsContext { apps, processes, processes_assigned_to_apps: assigned };
                Ok(())
            },
        }
    }

    /// The table of the processes.
    pub(crate) fn table(&self) -> (r: &ProcessTable)
        ensures
            process_entries(*r) == self@.processes,
    {
        &self.processes
    }

    /// The process with the id `pid`, living or dead, if the tracker has seen one.
    pub fn get_process(&self, pid: i32) -> (r: Option<&Process>)
        ensures
            r is Some <==> self@.processes.contains_key(pid),
            r matches Some(process) ==> process@ == self@.processes[pid] && process@.data.pid == pid,
    {
        proof {
            use_type_invariant(self);
        }
        self.processes.get(pid)
    }

    /// The application with the id `id`, if one is installed.
    pub fn get_app(&self, id: &str) -> (r: Option<&App>)
        ensures
            r is Some <==> self@.apps.contains_key(id@),
            r matches Some(app) ==> app@ == self@.apps[id@] && app@.id == id@,
    {
        proof {
            use_type_invariant(self);
        }
        self.apps.get(id)
    }

    /// What the display shows of the process `pid`, living or dead, if the
    /// tracker has seen it.
    pub fn process_item(&self, pid: i32) -> (r: Option<ProcessItem>)
        ensures
            r is Some <==> self@.processes.contains_key(pid),
            r matches Some(item) ==> item@ == self@.processes[pid].item(),
    {
        match self.processes.get(pid) {
            Some(process) => Some(process.item()),
            None => None,
        }
    }
}

/// Puts the ids of the processes `found` into `claimed`.
fn claim(claimed: &mut PidSet, found: &Vec<&Process>)
    ensures
        pid_members(*final(claimed)) == pid_members(*old(claimed)).union(
            Set::new(
                |pid: i32|
                    exists|j: int|
                        0 <= j < found.len() && (#[trigger] found.deep_view()[j]).data.pid == pid,
            ),
        ),
{
    let ghost before = pid_members(*claimed);
    let mut i: usize = 0;
    assert(pid_members(*claimed) =~= before.union(
        Set::new(
            |pid: i32|
                exists|j: int| 0 <= j < 0 && (#[trigger] found.deep_view()[j]).data.pid == pid,
        ),
    ));
    while i < found.len()
        invariant
            i <= found.len(),
            pid_members(*claimed) == before.union(
                Set::new(
                    |pid: i32|
                        exists|j: int|
                            0 <= j < i && (#[trigger] found.deep_view()[j]).data.pid == pid,
                ),
            ),
        decreases found.len() - i,
    {
        let ghost sofar = Set::new(
            |pid: i32|
                exists|j: int| 0 <= j < i && (#[trigger] found.deep_view()[j]).data.pid == pid,
        );
        let ghost next = Set::new(
            |pid: i32|
                exists|j: int|
                    0 <= j < i + 1 && (#[trigger] found.deep_view()[j]).data.pid == pid,
        );
        let pid = found[i].data.pid;
        assert(found.deep_view()[i as int].data.pid == pid);
        claimed.insert(pid);
        assert(before.union(sofar).insert(pid) =~= before.union(next)) by {
            assert(next.contains(pid));
            assert forall|other: i32| sofar.contains(other) implies next.contains(other) by {
                let j = choose|j: int|
                    0 <= j < i && (#[trigger] found.deep_view()[j]).data.pid == other;
                assert(0 <= j < i + 1);
            }
            assert forall|other: i32| next.contains(other) implies sofar.contains(other) || other
                == pid by {
                let j = choose|j: int|
                    0 <= j < i + 1 && (#[trigger] found.deep_view()[j]).data.pid == other;
                if j < i {
                    assert(sofar.contains(other));
                }
            }
        }
        i = i + 1;
    }
}

impl AppsContext {
    /// The living processes, each once, in the order in which the tracker
    /// walks its processes.
    pub fn all_processes(&self) -> (found: Vec<&Process>)
        ensures
            walks(found.deep_view(), self@.alive_pids(), self@.processes),
    {
        let found = select(&self.processes, None, None);
        assert(Set::new(|pid: i32| choosable(self@.processes, None, None, pid))
            =~= self@.alive_pids());
        found
    }

    /// The snapshot of the processes for display: one item for each living
    /// process that has a command line.
    pub fn process_items(&self) -> (items: ProcessItems)
        ensures
            process_item_entries(items) == self@.process_items(),
    {
        let ghost table = self@.processes;
        let pids = self.processes.pids();
        let mut items = ProcessItems::new();
        let mut i: usize = 0;
        assert(process_item_entries(items) =~= Map::new(
            |pid: i32| pids@.take(0).contains(pid) && self@.shown(pid),
            |pid: i32| table[pid].item(),
        ));
        while i < pids.len()
            invariant
                i <= pids@.len(),
                table == self@.processes,
                pids@.to_set() == table.dom(),
                process_item_entries(items) == Map::new(
                    |pid: i32| pids@.take(i as int).contains(pid) && self@.shown(pid),
                    |pid: i32| table[pid].item(),
                ),
            decreases pids@.len() - i,
        {
            let pid = pids[i];
            assert forall|other: i32| pids@.take(i + 1).contains(other) <==> (pids@.take(
                i as int,
            ).contains(other) || other == pid) by {
                assert(pids@.take(i + 1) =~= pids@.take(i as int).push(pid));
                lemma_push_contains(pids@.take(i as int), pid, other);
            }
            match self.processes.get(pid) {
                Some(process) => {
                    if process.alive && !process.data.commandline.as_str().is_empty() {
                        items.insert(pid, process.item());
                    }
                },
                None => {},
            }
            proof {
                let before = Map::new(
                    |pid: i32| pids@.take(i as int).contains(pid) && self@.shown(pid),
                    |pid: i32| table[pid].item(),
                );
                let after = Map::new(
                    |pid: i32| pids@.take(i + 1).contains(pid) && self@.shown(pid),
                    |pid: i32| table[pid].item(),
                );
                let now = process_item_entries(items);
                assert(pids@.take(i + 1)[i as int] == pid);
                assert(pids@.take(i + 1).contains(pid));
                if self@.shown(pid) {
                    assert(now == before.insert(pid, table[pid].item()));
                    assert(before.insert(pid, table[pid].item()) =~= after);
                } else {
                    assert(now == before);
                    assert(before =~= after);
                }
            }
            i = i + 1;
        }
        assert(pids@.take(i as int) =~= pids@);
        assert(process_item_entries(items) =~= self@.process_items()) by {
            assert forall|pid: i32| self@.shown(pid) implies pids@.contains(pid) by {
                assert(pids@.to_set().contains(pid));
            }
        }
        items
    }
}

impl AppsContext {
    /// The snapshot of the applications for display: one item for each
    /// installed application that runs and is no desktop portal, and one
    /// item without an id for the living processes of none of these.
    pub fn app_items(&self) -> (items: AppItems)
        ensures
            app_item_entries(items) == self@.app_items(),
    {
        proof {
            use_type_invariant(self);
        }
        let ghost c = self@;
        let ids = self.apps.ids();
        let ghost names = ids.deep_view();
        let mut claimed = PidSet::new();
        let mut items = AppItems::new();
        let mut i: usize = 0;
        assert(pid_members(claimed) =~= c.claimed_among(names.take(0)));
        assert(app_item_entries(items) =~= c.items_among(names.take(0)));
        while i < ids.len()
            invariant
                i <= ids.len(),
                c == self@,
                c.wf(),
                names == ids.deep_view(),
                names.to_set() == c.apps.dom(),
                pid_members(claimed) == c.claimed_among(names.take(i as int)),
                app_item_entries(items) == c.items_among(names.take(i as int)),
            decreases ids.len() - i,
        {
            let id = ids[i].as_str();
            let ghost name = names[i as int];
            assert(id@ == name);
            let ghost before = names.take(i as int);
            let ghost after = names.take(i + 1);
            assert forall|other: Seq<char>| after.contains(other) <==> (before.contains(other)
                || other == name) by {
                assert(after =~= before.push(name));
                lemma_push_contains(before, name, other);
            }
            assert(names.to_set().contains(name));
            match self.apps.get(id) {
                Some(app) => {
                    assert(app@ == c.apps[name]);
                    assert(app@.id == name);
                    let shown = app.is_running(self) && !str_starts_with(app.id(), PORTAL_PREFIX);
                    assert(shown == c.listed(name));
                    if shown {
                        let found = app.processes_iter(self);
                        let ghost earlier = pid_members(claimed);
                        claim(&mut claimed, &found);
                        proof {
                            let members = app@.live_members(c.processes);
                            let order = choose|order: Seq<i32>|
                                is_walk(order, found.deep_view(), members, c.processes);
                            let added = Set::new(
                                |pid: i32|
                                    exists|j: int|
                                        0 <= j < found.len() && (
                                        #[trigger] found.deep_view()[j]).data.pid == pid,
                            );
                            assert(added =~= members) by {
                                assert forall|pid: i32| added.contains(pid) implies members.contains(
                                    pid,
                                ) by {
                                    let j = choose|j: int|
                                        0 <= j < found.len() && (
                                        #[trigger] found.deep_view()[j]).data.pid == pid;
                                    assert(order.to_set().contains(order[j]));
                                    assert(c.processes.contains_key(order[j]));
                                }
                                assert forall|pid: i32| members.contains(pid) implies added.contains(
                                    pid,
                                ) by {
                                    assert(order.contains(pid));
                                    let j = choose|j: int| 0 <= j < order.len() && order[j] == pid;
                                    assert(found.deep_view()[j] == c.processes[order[j]]);
                                    assert(found.deep_view()[j].data.pid == pid);
                                }
                            }
                            assert(earlier.union(members) =~= c.claimed_among(after)) by {
                                assert forall|pid: i32| c.claimed_among(after).contains(
                                    pid,
                                ) implies earlier.union(members).contains(pid) by {
                                    let owner = choose|owner: Seq<char>|
                                        after.contains(owner) && c.listed(owner)
                                            && #[trigger] c.apps[owner].has_live(c.processes, pid);
                                    if owner == name {
                                        assert(members.contains(pid));
                                    } else {
                                        assert(before.contains(owner));
                                        assert(c.claimed_among(before).contains(pid));
                                    }
                                }
                                assert forall|pid: i32| earlier.union(members).contains(
                                    pid,
                                ) implies c.claimed_among(after).contains(pid) by {
                                    if members.contains(pid) {
                                        assert(after.contains(name) && c.listed(name)
                                            && c.apps[name].has_live(c.processes, pid));
                                    } else {
                                        let owner = choose|owner: Seq<char>|
                                            before.contains(owner) && c.listed(owner)
                                                && #[trigger] c.apps[owner].has_live(
                                                c.processes,
                                                pid,
                                            );
                                        assert(after.contains(owner));
                                    }
                                }
                            }
                        }
                        let ghost listed_before = app_item_entries(items);
                        items.insert(Some(String::from_str(app.id())), app.item(self));
                        assert(listed_before.insert(Some(name), c.apps[name].item(c.processes))
                            =~= c.items_among(after));
                    } else {
                        assert(c.claimed_among(before) =~= c.claimed_among(after)) by {
                            assert forall|pid: i32| c.claimed_among(after).contains(
                                pid,
                            ) implies c.claimed_among(before).contains(pid) by {
                                let owner = choose|owner: Seq<char>|
                                    after.contains(owner) && c.listed(owner)
                                        && #[trigger] c.apps[owner].has_live(c.processes, pid);
                                assert(before.contains(owner));
                            }
                            assert forall|pid: i32| c.claimed_among(before).contains(
                                pid,
                            ) implies c.claimed_among(after).contains(pid) by {
                                let owner = choose|owner: Seq<char>|
                                    before.contains(owner) && c.listed(owner)
                                        && #[trigger] c.apps[owner].has_live(c.processes, pid);
                                assert(after.contains(owner));
                            }
                        }
                        assert(c.items_among(before) =~= c.items_among(after));
                    }
                },
                None => {},
            }
            i = i + 1;
        }
        proof {
            assert(names.take(i as int) =~= names);
            assert(c.claimed_among(names) =~= c.claimed()) by {
                assert forall|pid: i32| c.claimed().contains(pid) implies c.claimed_among(
                    names,
                ).contains(pid) by {
                    let owner = choose|owner: Seq<char>|
                        c.listed(owner) && #[trigger] c.apps[owner].has_live(c.processes, pid);
                    assert(names.to_set().contains(owner));
                }
            }
        }
        let rest = select(&self.processes, None, Some(&claimed));
        proof {
            let chosen = Set::new(
                |pid: i32| choosable(c.processes, None, Some(pid_members(claimed)), pid),
            );
            assert(chosen =~= c.system_pids());
            let order = choose|order: Seq<i32>|
                is_walk(order, rest.deep_view(), c.system_pids(), c.processes);
            lemma_tally_is_total(
                order,
                rest.deep_view(),
                c.system_pids(),
                c.processes,
                Measure::Memory,
            );
            lemma_tally_is_total(
                order,
                rest.deep_view(),
                c.system_pids(),
                c.processes,
                Measure::Ratio,
            );
            order.unique_seq_to_set();
        }
        let memory = saturating_tally(&rest, Measure::Memory);
        let system = AppItem {
            id: None,
            display_name: String::from_str(SYSTEM_PROCESSES_NAME),
            icon: Icon::themed(SYSTEM_PROCESSES_ICON),
            description: None,
            memory_usage: if memory > usize::MAX as u64 {
                usize::MAX
            } else {
                memory as usize
            },
            cpu_time_ratio: saturating_tally(&rest, Measure::Ratio),
            processes_amount: rest.len(),
            containerization: Containerization::Uncontained,
        };
        assert(system@ == c.system_item());
        let ghost listed = app_item_entries(items);
        items.insert(None, system);
        assert(listed.insert(None, c.system_item()) =~= c.app_items()) by {
            assert forall|id: Seq<char>| c.listed(id) implies names.contains(id) by {
                assert(names.to_set().contains(id));
            }
        }
        items
    }
}

} // verus!
