//! Laws of the tracker, proved from its model: what a refresh does to a
//! process that is listed, to one that is not, and to the assignment of
//! processes to applications, and what the snapshots hold.

use crate::model::{lemma_observe_wf, lemma_push_contains, lemma_refresh_wf, pids_of, ContextView};
use crate::processes::{
    clamped_ratio, lemma_clamped_ratio_bounds, lemma_clamped_ratio_is_the_quotient,
    ProcessDataView, ProcessItemView, CPU_RATIO_SCALE,
};
use vstd::prelude::*;
use vstd::set_lib::{lemma_len_subset, lemma_set_difference_len};

verus! {

/// Whether the enumeration lists the process of its record `k` only there.
pub open spec fn listed_once(fresh: Seq<ProcessDataView>, k: int) -> bool {
    &&& 0 <= k < fresh.len()
    &&& forall|j: int| 0 <= j < fresh.len() && j != k ==> (#[trigger] fresh[j]).pid != fresh[k].pid
}

/// Whether the enumeration lists no process twice.
pub open spec fn lists_each_once(fresh: Seq<ProcessDataView>) -> bool {
    forall|k: int| 0 <= k < fresh.len() ==> listed_once(fresh, k)
}

/// Whether `later` is `earlier` read again at other times: the same records
/// in the same order, but for the timestamps.
pub open spec fn same_but_for_time(earlier: Seq<ProcessDataView>, later: Seq<ProcessDataView>) -> bool {
    &&& earlier.len() == later.len()
    &&& forall|k: int|
        0 <= k < earlier.len() ==> #[trigger] later[k] == (ProcessDataView {
            cpu_time_timestamp: later[k].cpu_time_timestamp,
            ..earlier[k]
        })
}

/// A record changes nothing of a process with another id.
pub proof fn lemma_observe_other(c: ContextView, fresh: ProcessDataView, pid: i32)
    requires
        fresh.pid != pid,
    ensures
        c.observe(fresh).processes.contains_key(pid) == c.processes.contains_key(pid),
        c.processes.contains_key(pid) ==> c.observe(fresh).processes[pid] == c.processes[pid],
        c.observe(fresh).assigned.contains(pid) == c.assigned.contains(pid),
{
}

/// An enumeration changes nothing of a process that it does not list.
pub proof fn lemma_unlisted_untouched(c: ContextView, fresh: Seq<ProcessDataView>, pid: i32)
    requires
        !pids_of(fresh).contains(pid),
    ensures
        c.observe_all(fresh).processes.contains_key(pid) == c.processes.contains_key(pid),
        c.processes.contains_key(pid) ==> c.observe_all(fresh).processes[pid] == c.processes[pid],
        c.observe_all(fresh).assigned.contains(pid) == c.assigned.contains(pid),
    decreases fresh.len(),
{
    if fresh.len() > 0 {
        let shorter = fresh.drop_last();
        assert(!pids_of(shorter).contains(pid)) by {
            if pids_of(shorter).contains(pid) {
                let i = choose|i: int| 0 <= i < shorter.len() && #[trigger] shorter[i].pid == pid;
                assert(fresh[i].pid == pid);
            }
        }
        lemma_unlisted_untouched(c, shorter, pid);
        assert(fresh[fresh.len() - 1].pid != pid);
        lemma_observe_other(c.observe_all(shorter), fresh.last(), pid);
    }
}

/// A process that the tracker knows and that the enumeration lists once
/// gets the record as its latest sample, and its latest sample becomes the
/// one before.
pub proof fn lemma_known_is_updated(c: ContextView, fresh: Seq<ProcessDataView>, k: int)
    requires
        listed_once(fresh, k),
        c.processes.contains_key(fresh[k].pid),
    ensures
        c.observe_all(fresh).processes.contains_key(fresh[k].pid),
        c.observe_all(fresh).processes[fresh[k].pid] == c.processes[fresh[k].pid].updated(fresh[k]),
    decreases fresh.len(),
{
    let pid = fresh[k].pid;
    let shorter = fresh.drop_last();
    let before = c.observe_all(shorter);
    if k == fresh.len() - 1 {
        assert(!pids_of(shorter).contains(pid)) by {
            if pids_of(shorter).contains(pid) {
                let i = choose|i: int| 0 <= i < shorter.len() && #[trigger] shorter[i].pid == pid;
                assert(fresh[i].pid == pid);
            }
        }
        lemma_unlisted_untouched(c, shorter, pid);
    } else {
        assert(listed_once(shorter, k)) by {
            assert forall|j: int| 0 <= j < shorter.len() && j != k implies (
            #[trigger] shorter[j]).pid != shorter[k].pid by {
                assert(fresh[j].pid != fresh[k].pid);
            }
        }
        lemma_known_is_updated(c, shorter, k);
        assert(fresh[fresh.len() - 1].pid != pid);
        lemma_observe_other(before, fresh.last(), pid);
    }
}

/// A process that the tracker neither knows nor counts as assigned, and
/// that the enumeration lists once, is known afterwards, alive, with the
/// record as both of its samples.
pub proof fn lemma_unknown_is_enrolled(c: ContextView, fresh: Seq<ProcessDataView>, k: int)
    requires
        listed_once(fresh, k),
        !c.processes.contains_key(fresh[k].pid),
        !c.assigned.contains(fresh[k].pid),
    ensures
        c.observe_all(fresh).processes.contains_key(fresh[k].pid),
        c.observe_all(fresh).processes[fresh[k].pid].data == fresh[k],
        c.observe_all(fresh).processes[fresh[k].pid].alive,
        c.observe_all(fresh).processes[fresh[k].pid].cpu_time_before == fresh[k].cpu_time,
        c.observe_all(fresh).processes[fresh[k].pid].cpu_time_before_timestamp
            == fresh[k].cpu_time_timestamp,
    decreases fresh.len(),
{
    let pid = fresh[k].pid;
    let shorter = fresh.drop_last();
    let before = c.observe_all(shorter);
    if k == fresh.len() - 1 {
        assert(!pids_of(shorter).contains(pid)) by {
            if pids_of(shorter).contains(pid) {
                let i = choose|i: int| 0 <= i < shorter.len() && #[trigger] shorter[i].pid == pid;
                assert(fresh[i].pid == pid);
            }
        }
        lemma_unlisted_untouched(c, shorter, pid);
    } else {
        assert(listed_once(shorter, k)) by {
            assert forall|j: int| 0 <= j < shorter.len() && j != k implies (
            #[trigger] shorter[j]).pid != shorter[k].pid by {
                assert(fresh[j].pid != fresh[k].pid);
            }
        }
        lemma_unknown_is_enrolled(c, shorter, k);
        assert(fresh[fresh.len() - 1].pid != pid);
        lemma_observe_other(before, fresh.last(), pid);
    }
}

/// After an enumeration a well-formed tracker knows the processes that it
/// knew and the processes that the enumeration lists, and no others.
pub proof fn lemma_known_after(c: ContextView, fresh: Seq<ProcessDataView>)
    requires
        c.wf(),
    ensures
        c.observe_all(fresh).wf(),
        c.observe_all(fresh).processes.dom() == c.processes.dom().union(pids_of(fresh)),
    decreases fresh.len(),
{
    if fresh.len() == 0 {
        assert(pids_of(fresh) =~= Set::<i32>::empty());
        assert(c.processes.dom().union(pids_of(fresh)) =~= c.processes.dom());
    } else {
        let shorter = fresh.drop_last();
        let before = c.observe_all(shorter);
        lemma_known_after(c, shorter);
        lemma_observe_wf(before, fresh.last());
        assert(pids_of(fresh) =~= pids_of(shorter).insert(fresh.last().pid)) by {
            assert forall|pid: i32| pids_of(fresh).contains(pid) implies pids_of(shorter).insert(
                fresh.last().pid,
            ).contains(pid) by {
                let i = choose|i: int| 0 <= i < fresh.len() && #[trigger] fresh[i].pid == pid;
                if i < shorter.len() {
                    assert(shorter[i].pid == pid);
                }
            }
            assert forall|pid: i32| pids_of(shorter).insert(fresh.last().pid).contains(
                pid,
            ) implies pids_of(fresh).contains(pid) by {
                if pid == fresh.last().pid {
                    assert(fresh[fresh.len() - 1].pid == pid);
                } else {
                    let i = choose|i: int|
                        0 <= i < shorter.len() && #[trigger] shorter[i].pid == pid;
                    assert(fresh[i].pid == pid);
                }
            }
        }
        assert(before.observe(fresh.last()).processes.dom() =~= before.processes.dom().insert(
            fresh.last().pid,
        ));
        assert(c.observe_all(fresh).processes.dom() =~= c.processes.dom().union(pids_of(fresh)));
    }
}

/// Between two refreshes that list a process once each, its share of
/// processor time is the processor time it used between the two samples
/// over the time that passed, kept between nothing and all of it and
/// counted in whole parts of `CPU_RATIO_SCALE`; it is nothing where no time
/// passed.
pub proof fn law_cpu_time_ratio_across_refreshes(
    c: ContextView,
    first: Seq<ProcessDataView>,
    second: Seq<ProcessDataView>,
    i: int,
    k: int,
)
    requires
        c.wf(),
        listed_once(first, i),
        listed_once(second, k),
        first[i].pid == second[k].pid,
    ensures
        ({
            let pid = second[k].pid;
            let process = c.refresh(first).refresh(second).processes[pid];
            &&& c.refresh(first).refresh(second).processes.contains_key(pid)
            &&& process.data == second[k]
            &&& process.cpu_time_before == first[i].cpu_time
            &&& process.cpu_time_before_timestamp == first[i].cpu_time_timestamp
            &&& process.cpu_time_ratio() == clamped_ratio(
                second[k].cpu_time - first[i].cpu_time,
                second[k].cpu_time_timestamp - first[i].cpu_time_timestamp,
            )
            &&& 0 <= process.cpu_time_ratio() <= CPU_RATIO_SCALE
            &&& second[k].cpu_time_timestamp == first[i].cpu_time_timestamp
                ==> process.cpu_time_ratio() == 0
            &&& 0 < process.delta_cpu() < process.delta_time() ==> {
                &&& process.cpu_time_ratio() * process.delta_time() <= process.delta_cpu()
                    * CPU_RATIO_SCALE
                &&& process.delta_cpu() * CPU_RATIO_SCALE < (process.cpu_time_ratio() + 1)
                    * process.delta_time()
            }
        }),
{
    let pid = second[k].pid;
    let once = c.refresh(first);
    lemma_listed_holds_record(c, first, i);
    lemma_refresh_wf(c, first);
    lemma_known_is_updated(once, second, k);
    assert(second[k].pid == pid);
    assert(pids_of(second).contains(pid));
    lemma_clamped_ratio_bounds(
        second[k].cpu_time - first[i].cpu_time,
        second[k].cpu_time_timestamp - first[i].cpu_time_timestamp,
    );
    let process = once.refresh(second).processes[pid];
    if 0 < process.delta_cpu() < process.delta_time() {
        lemma_clamped_ratio_is_the_quotient(process.delta_cpu(), process.delta_time());
    }
}

/// After a refresh of a well-formed tracker, a process that the
/// enumeration lists once is known and has the record as its latest sample.
pub proof fn lemma_listed_holds_record(c: ContextView, fresh: Seq<ProcessDataView>, k: int)
    requires
        c.wf(),
        listed_once(fresh, k),
    ensures
        c.refresh(fresh).processes.contains_key(fresh[k].pid),
        c.refresh(fresh).processes[fresh[k].pid].data == fresh[k],
        c.refresh(fresh).processes[fresh[k].pid] == c.observe_all(fresh).processes[fresh[k].pid],
        c.processes.contains_key(fresh[k].pid) ==> c.refresh(fresh).processes[fresh[k].pid]
            == c.processes[fresh[k].pid].updated(fresh[k]),
        !c.processes.contains_key(fresh[k].pid) ==> c.refresh(fresh).processes[fresh[k].pid].alive,
{
    let pid = fresh[k].pid;
    assert(pids_of(fresh).contains(pid));
    if c.processes.contains_key(pid) {
        lemma_known_is_updated(c, fresh, k);
    } else {
        lemma_unknown_is_enrolled(c, fresh, k);
    }
}

/// A process that the tracker knows and that an enumeration does not list
/// is dead after the refresh, can still be looked up with all that was
/// known of it, and is no part of the snapshot of the processes.
pub proof fn law_unlisted_process_is_dead_but_known(
    c: ContextView,
    fresh: Seq<ProcessDataView>,
    pid: i32,
)
    requires
        c.processes.contains_key(pid),
        !pids_of(fresh).contains(pid),
    ensures
        c.refresh(fresh).processes.contains_key(pid),
        c.refresh(fresh).processes[pid] == c.processes[pid].dead(),
        !c.refresh(fresh).processes[pid].alive,
        !c.refresh(fresh).process_items().contains_key(pid),
{
    lemma_unlisted_untouched(c, fresh, pid);
}

/// One record takes no process away from an application, and adds or
/// removes no application.
pub proof fn lemma_observe_keeps_members(c: ContextView, fresh: ProcessDataView)
    ensures
        c.observe(fresh).apps.dom() == c.apps.dom(),
        forall|id: Seq<char>, pid: i32|
            c.apps.contains_key(id) && #[trigger] c.apps[id].processes.contains(pid) ==> c.observe(
                fresh,
            ).apps[id].processes.contains(pid),
{
    assert(c.observe(fresh).apps.dom() =~= c.apps.dom());
    assert forall|id: Seq<char>, pid: i32|
        c.apps.contains_key(id) && #[trigger] c.apps[id].processes.contains(pid) implies c.observe(
        fresh,
    ).apps[id].processes.contains(pid) by {
        lemma_push_contains(c.apps[id].processes, fresh.pid, pid);
    }
}

/// An enumeration takes no process away from an application, and adds or
/// removes no application.
pub proof fn lemma_observe_all_keeps_members(c: ContextView, fresh: Seq<ProcessDataView>)
    ensures
        c.observe_all(fresh).apps.dom() == c.apps.dom(),
        forall|id: Seq<char>, pid: i32|
            c.apps.contains_key(id) && #[trigger] c.apps[id].processes.contains(pid)
                ==> c.observe_all(fresh).apps[id].processes.contains(pid),
    decreases fresh.len(),
{
    if fresh.len() > 0 {
        let before = c.observe_all(fresh.drop_last());
        lemma_observe_all_keeps_members(c, fresh.drop_last());
        lemma_observe_keeps_members(before, fresh.last());
        assert forall|id: Seq<char>, pid: i32|
            c.apps.contains_key(id) && #[trigger] c.apps[id].processes.contains(
                pid,
            ) implies c.observe_all(fresh).apps[id].processes.contains(pid) by {
            assert(before.apps.contains_key(id));
            assert(before.apps[id].processes.contains(pid));
        }
    }
}

/// A process belongs to at most one application, and a refresh never takes
/// it from the application it was assigned to nor gives it to another,
/// whatever control group its new records name.
pub proof fn law_assignment_is_for_good(
    c: ContextView,
    fresh: Seq<ProcessDataView>,
    id: Seq<char>,
    pid: i32,
)
    requires
        c.wf(),
        c.apps.contains_key(id),
        c.apps[id].processes.contains(pid),
    ensures
        forall|other: Seq<char>|
            c.apps.contains_key(other) && #[trigger] c.apps[other].processes.contains(pid) ==> other
                == id,
        c.refresh(fresh).apps.contains_key(id),
        c.refresh(fresh).apps[id].processes.contains(pid),
        forall|other: Seq<char>|
            c.refresh(fresh).apps.contains_key(other) && #[trigger] c.refresh(
                fresh,
            ).apps[other].processes.contains(pid) ==> other == id,
{
    lemma_refresh_wf(c, fresh);
    lemma_observe_all_keeps_members(c, fresh);
    assert(c.refresh(fresh).apps == c.observe_all(fresh).apps);
}

/// The snapshot of the applications has one entry without an id, which
/// stands for as many processes as live less those that live as part of an
/// application that the snapshot shows; every other entry carries the id
/// that it stands under.
pub proof fn law_one_entry_for_system_processes(c: ContextView)
    requires
        c.wf(),
    ensures
        c.app_items().contains_key(None),
        c.app_items()[None] == c.system_item(),
        c.system_item().id is None,
        forall|key: Option<Seq<char>>| #[trigger]
            c.app_items().contains_key(key) && key is Some ==> c.app_items()[key].id == key,
        c.claimed().subset_of(c.alive_pids()),
        c.system_pids().len() == c.alive_pids().len() - c.claimed().len(),
        c.system_item().processes_amount == (c.alive_pids().len() - c.claimed().len()) as usize,
{
    assert(c.alive_pids().subset_of(c.processes.dom()));
    lemma_len_subset(c.alive_pids(), c.processes.dom());
    assert(c.claimed().subset_of(c.alive_pids()));
    lemma_len_subset(c.claimed(), c.alive_pids());
    lemma_set_difference_len(c.alive_pids(), c.claimed());
    assert(c.alive_pids().difference(c.claimed()) =~= c.system_pids());
    assert(c.alive_pids().intersect(c.claimed()) =~= c.claimed());
    assert forall|key: Option<Seq<char>>| #[trigger]
        c.app_items().contains_key(key) && key is Some implies c.app_items()[key].id == key by {
        let id = key->0;
        assert(c.listed(id));
        assert(c.apps.contains_key(id));
    }
}

/// Whether no process of the tracker has a sample before that is younger
/// than its latest sample.
pub open spec fn samples_in_order(c: ContextView) -> bool {
    forall|pid: i32| #[trigger]
        c.processes.contains_key(pid) ==> c.processes[pid].cpu_time_before_timestamp
            <= c.processes[pid].data.cpu_time_timestamp
}

/// Whether no record of the enumeration is older than the latest sample
/// that the tracker holds of the same process.
pub open spec fn moves_forward(c: ContextView, fresh: Seq<ProcessDataView>) -> bool {
    forall|k: int|
        0 <= k < fresh.len() && c.processes.contains_key((#[trigger] fresh[k]).pid)
            ==> c.processes[fresh[k].pid].data.cpu_time_timestamp <= fresh[k].cpu_time_timestamp
}

/// Where time does not run backwards, the sample before is never younger
/// than the latest sample: a refresh with an enumeration that lists each
/// process once, and none with a record older than its latest sample, keeps
/// the samples of every process in order.
pub proof fn law_samples_stay_in_order(c: ContextView, fresh: Seq<ProcessDataView>)
    requires
        c.wf(),
        samples_in_order(c),
        lists_each_once(fresh),
        moves_forward(c, fresh),
    ensures
        samples_in_order(c.refresh(fresh)),
{
    let after = c.refresh(fresh);
    lemma_known_after(c, fresh);
    assert(after.processes.dom() =~= c.observe_all(fresh).processes.dom());
    assert forall|pid: i32| #[trigger] after.processes.contains_key(pid) implies {
        after.processes[pid].cpu_time_before_timestamp
            <= after.processes[pid].data.cpu_time_timestamp
    } by {
        if pids_of(fresh).contains(pid) {
            let k = choose|k: int| 0 <= k < fresh.len() && #[trigger] fresh[k].pid == pid;
            assert(listed_once(fresh, k));
            lemma_listed_holds_record(c, fresh, k);
            if c.processes.contains_key(pid) {
                lemma_known_is_updated(c, fresh, k);
            } else {
                assert(!c.assigned.contains(pid));
                lemma_unknown_is_enrolled(c, fresh, k);
            }
        } else {
            assert(c.processes.dom().union(pids_of(fresh)).contains(pid));
            lemma_unlisted_untouched(c, fresh, pid);
        }
    }
}

/// What the display shows of a process once its share of processor time is nothing.
pub open spec fn at_rest(item: ProcessItemView) -> ProcessItemView {
    ProcessItemView { cpu_time_ratio: 0, ..item }
}

/// A second refresh with the records of the first, read at any later time,
/// shows the same processes with the same items, but that every share of
/// processor time is nothing.
pub proof fn law_refresh_twice(
    c: ContextView,
    first: Seq<ProcessDataView>,
    second: Seq<ProcessDataView>,
)
    requires
        c.wf(),
        lists_each_once(first),
        same_but_for_time(first, second),
    ensures
        c.refresh(first).refresh(second).process_items().dom() == c.refresh(
            first,
        ).process_items().dom(),
        forall|pid: i32| #[trigger]
            c.refresh(first).process_items().contains_key(pid) ==> c.refresh(first).refresh(
                second,
            ).process_items()[pid] == at_rest(c.refresh(first).process_items()[pid]),
{
    let once = c.refresh(first);
    let twice = once.refresh(second);
    lemma_refresh_wf(c, first);
    lemma_known_after(c, first);
    lemma_known_after(once, second);
    assert(pids_of(second) =~= pids_of(first)) by {
        assert forall|pid: i32| pids_of(second).contains(pid) implies pids_of(first).contains(
            pid,
        ) by {
            let k = choose|k: int| 0 <= k < second.len() && #[trigger] second[k].pid == pid;
            assert(first[k].pid == pid);
        }
        assert forall|pid: i32| pids_of(first).contains(pid) implies pids_of(second).contains(
            pid,
        ) by {
            let k = choose|k: int| 0 <= k < first.len() && #[trigger] first[k].pid == pid;
            assert(second[k].pid == pid);
        }
    }
    assert(once.processes.dom() =~= c.observe_all(first).processes.dom());
    assert(twice.processes.dom() =~= once.observe_all(second).processes.dom());
    assert(twice.processes.dom() =~= once.processes.dom());
    assert forall|pid: i32| once.processes.contains_key(pid) implies ({
        &&& twice.processes[pid].alive == once.processes[pid].alive
        &&& once.shown(pid) ==> twice.processes[pid].item() == at_rest(once.processes[pid].item())
        &&& twice.processes[pid].data.commandline == once.processes[pid].data.commandline
    }) by {
        if pids_of(first).contains(pid) {
            let k = choose|k: int| 0 <= k < first.len() && #[trigger] first[k].pid == pid;
            assert(listed_once(first, k));
            assert(listed_once(second, k)) by {
                assert forall|j: int| 0 <= j < second.len() && j != k implies (
                #[trigger] second[j]).pid != second[k].pid by {
                    assert(first[j].pid != first[k].pid);
                }
            }
            lemma_listed_holds_record(c, first, k);
            lemma_listed_holds_record(once, second, k);
            assert(second[k].cpu_time == first[k].cpu_time);
        } else {
            lemma_unlisted_untouched(once, second, pid);
        }
    }
    assert(twice.process_items().dom() =~= once.process_items().dom());
}

} // verus!
