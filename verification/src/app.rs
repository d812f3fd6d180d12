//! Installed applications: what is known of each, which processes were
//! assigned to it, and what its living processes add up to.

use crate::model::{is_walk, lemma_tally_is_total, shows_flatpak, walks, Measure, SANDBOX_LAUNCHER};
use crate::processes::{
    clone_optional, delivered, ActionError, Containerization, Icon, Process, ProcessAction,
    ProcessView, CPU_RATIO_SCALE,
};
use crate::sums::saturate;
use crate::text::{optional_text, str_starts_with};
use crate::tracker::{choosable, saturating_tally, select, AppsContext};
use vstd::prelude::*;

verus! {


/// An application installed on the system, whether or not it is running.
#[derive(Debug)]
pub struct App {
    processes: Vec<i32>,
    /// The name shown to the user.
    pub display_name: String,
    /// What the application is for, where its descriptor says so.
    pub description: Option<String>,
    /// The icon of the application, which its processes take over.
    pub icon: Icon,
    /// The id of the desktop entry, without the extension of the file.
    pub id: String,
}

/// What an `App` holds, with its texts as sequences of characters.
pub struct AppView {
    /// The ids of the processes that were assigned to the application.
    pub processes: Seq<i32>,
    pub display_name: Seq<char>,
    pub description: Option<Seq<char>>,
    pub icon: Seq<char>,
    pub id: Seq<char>,
}

impl View for App {
    type V = AppView;

    closed spec fn view(&self) -> AppView {
        AppView {
            processes: self.processes@,
            display_name: self.display_name@,
            description: optional_text(self.description),
            icon: self.icon@,
            id: self.id@,
        }
    }
}

impl DeepView for App {
    type V = AppView;

    open spec fn deep_view(&self) -> AppView {
        self@
    }
}

impl Clone for App {
    fn clone(&self) -> (r: Self)
        ensures
            r@ == self@,
    {
        App {
            processes: self.processes.clone(),
            display_name: self.display_name.clone(),
            description: clone_optional(&self.description),
            icon: self.icon.clone(),
            id: self.id.clone(),
        }
    }
}

/// What the display shows of one running application, or of all the
/// processes that belong to none: a copy that owns all it holds.
#[derive(Debug)]
pub struct AppItem {
    /// The id of the application; none for the system processes.
    pub id: Option<String>,
    pub display_name: String,
    pub icon: Icon,
    pub description: Option<String>,
    /// The memory that the living processes use together, in bytes.
    pub memory_usage: usize,
    /// The share of processor time, in parts of `CPU_RATIO_SCALE`.
    pub cpu_time_ratio: u64,
    /// How many living processes there are.
    pub processes_amount: usize,
    pub containerization: Containerization,
}

/// What an `AppItem` holds, with its texts as sequences of characters.
pub struct AppItemView {
    pub id: Option<Seq<char>>,
    pub display_name: Seq<char>,
    pub icon: Seq<char>,
    pub description: Option<Seq<char>>,
    pub memory_usage: usize,
    pub cpu_time_ratio: u64,
    pub processes_amount: usize,
    pub containerization: Containerization,
}

impl View for AppItem {
    type V = AppItemView;

    open spec fn view(&self) -> AppItemView {
        AppItemView {
            id: optional_text(self.id),
            display_name: self.display_name@,
            icon: self.icon@,
            description: optional_text(self.description),
            memory_usage: self.memory_usage,
            cpu_time_ratio: self.cpu_time_ratio,
            processes_amount: self.processes_amount,
            containerization: self.containerization,
        }
    }
}

impl DeepView for AppItem {
    type V = AppItemView;

    open spec fn deep_view(&self) -> AppItemView {
        self@
    }
}

impl Clone for AppItem {
    fn clone(&self) -> (r: Self)
        ensures
            r@ == self@,
    {
        AppItem {
            id: clone_optional(&self.id),
            display_name: self.display_name.clone(),
            icon: self.icon.clone(),
            description: clone_optional(&self.description),
            memory_usage: self.memory_usage,
            cpu_time_ratio: self.cpu_time_ratio,
            processes_amount: self.processes_amount,
            containerization: self.containerization,
        }
    }
}

/// What is left of `pids` once every occurrence of `pid` is taken out.
pub open spec fn without(pids: Seq<i32>, pid: i32) -> Seq<i32>
    decreases pids.len(),
{
    if pids.len() == 0 {
        pids
    } else if pids.last() == pid {
        without(pids.drop_last(), pid)
    } else {
        without(pids.drop_last(), pid).push(pids.last())
    }
}

impl App {
    /// An application that no process has been assigned to.
    pub fn new(id: String, display_name: String, description: Option<String>, icon: Icon) -> (r: App)
        ensures
            r@ == (AppView {
                processes: Seq::empty(),
                display_name: display_name@,
                description: optional_text(description),
                icon: icon@,
                id: id@,
            }),
    {
        App { processes: Vec::new(), display_name, description, icon, id }
    }

    /// The application with no process assigned to it.
    pub fn without_processes(self) -> (r: App)
        ensures
            r@ == self@.without_processes(),
    {
        App { processes: Vec::new(), ..self }
    }

    /// The name of the application as it is shown to the user.
    pub fn display_name(&self) -> (r: &str)
        ensures
            r@ == self@.display_name,
    {
        self.display_name.as_str()
    }

    /// The id of the application.
    pub fn id(&self) -> (r: &str)
        ensures
            r@ == self@.id,
    {
        self.id.as_str()
    }

    /// The ids of the processes that were assigned to the application, in
    /// the order in which they were assigned.
    pub fn members(&self) -> (r: &Vec<i32>)
        ensures
            r@ == self@.processes,
    {
        &self.processes
    }

    /// Assigns `process` to the application: the process takes the icon of
    /// the application, and its id joins the list. The list is not searched
    /// for the id first.
    pub fn add_process(&mut self, process: &mut Process)
        ensures
            final(self)@ == old(self)@.with_process(old(process)@.data.pid),
            final(process)@ == (ProcessView { icon: old(self)@.icon, ..old(process)@ }),
    {
        process.icon = self.icon.clone();
        self.processes.push(process.data.pid);
    }

    /// Takes every occurrence of the id of `process` out of the list.
    pub fn remove_process(&mut self, process: &Process)
        ensures
            final(self)@ == (AppView {
                processes: without(old(self)@.processes, process@.data.pid),
                ..old(self)@
            }),
    {
        let pid = process.data.pid;
        let mut kept: Vec<i32> = Vec::new();
        let mut i: usize = 0;
        assert(self.processes@.take(0) =~= Seq::<i32>::empty());
        while i < self.processes.len()
            invariant
                i <= self.processes@.len(),
                *self == *old(self),
                kept@ == without(self.processes@.take(i as int), pid),
            decreases self.processes@.len() - i,
        {
            assert(self.processes@.take(i + 1).drop_last() =~= self.processes@.take(i as int));
            if self.processes[i] != pid {
                kept.push(self.processes[i]);
            }
            i = i + 1;
        }
        assert(self.processes@.take(i as int) =~= self.processes@);
        self.processes = kept;
    }
}

/// Whether `outcomes` are what one delivery of `action` to each of the
/// processes `targets` came to, in some order of the processes.
pub open spec fn fanned_out<F: Fn(i32, ProcessAction) -> i32>(
    send: &F,
    action: ProcessAction,
    targets: Set<i32>,
    outcomes: Seq<Result<(), ActionError>>,
) -> bool {
    exists|order: Seq<i32>|
        {
            &&& order.no_duplicates()
            &&& order.to_set() == targets
            &&& #[trigger] order.len() == outcomes.len()
            &&& forall|i: int|
                0 <= i < order.len() ==> delivered(send, #[trigger] order[i], action, outcomes[i])
        }
}

impl App {
    /// The living processes of the application, each once, in the order in
    /// which the tracker walks its processes.
    pub fn processes_iter<'a>(&self, apps: &'a AppsContext) -> (found: Vec<&'a Process>)
        ensures
            walks(found.deep_view(), self@.live_members(apps@.processes), apps@.processes),
    {
        let found = select(apps.table(), Some(&self.processes), None);
        assert(Set::new(
            |pid: i32| choosable(apps@.processes, Some(self.processes@), None, pid),
        ) =~= self@.live_members(apps@.processes));
        found
    }

    /// Whether the application has a living process.
    pub fn is_running(&self, apps: &AppsContext) -> (r: bool)
        ensures
            r == self@.is_running(apps@.processes),
    {
        let found = self.processes_iter(apps);
        proof {
            let members = self@.live_members(apps@.processes);
            let order = choose|order: Seq<i32>|
                is_walk(order, found.deep_view(), members, apps@.processes);
            if order.len() > 0 {
                assert(order.to_set().contains(order[0]));
                assert(self@.has_live(apps@.processes, order[0]));
            } else {
                assert forall|pid: i32| !self@.has_live(apps@.processes, pid) by {
                    if self@.has_live(apps@.processes, pid) {
                        assert(members.contains(pid));
                        assert(order.contains(pid));
                    }
                }
            }
        }
        found.len() > 0
    }

    /// The sum of a measure over the living processes, at most `u64::MAX`.
    fn total_of(&self, apps: &AppsContext, measure: Measure) -> (r: u64)
        ensures
            r == saturate(self@.total(apps@.processes, measure) as int, u64::MAX as int),
    {
        let found = self.processes_iter(apps);
        proof {
            let members = self@.live_members(apps@.processes);
            let order = choose|order: Seq<i32>|
                is_walk(order, found.deep_view(), members, apps@.processes);
            lemma_tally_is_total(order, found.deep_view(), members, apps@.processes, measure);
        }
        saturating_tally(&found, measure)
    }

    /// The memory that the living processes of the application use
    /// together, in bytes; `usize::MAX` where the sum is more than that.
    pub fn memory_usage(&self, apps: &AppsContext) -> (r: usize)
        ensures
            r == self@.memory_usage(apps@.processes),
    {
        let sum = self.total_of(apps, Measure::Memory);
        if sum > usize::MAX as u64 {
            usize::MAX
        } else {
            sum as usize
        }
    }

    /// The processor time of the living processes together; `u64::MAX`
    /// where the sum is more than that.
    pub fn cpu_time(&self, apps: &AppsContext) -> (r: u64)
        ensures
            r == self@.cpu_time(apps@.processes),
    {
        self.total_of(apps, Measure::CpuTime)
    }

    /// The mean of the timestamps of the latest samples: their sum over the
    /// living processes, divided by the number of processes ever assigned.
    pub fn cpu_time_timestamp(&self, apps: &AppsContext) -> (r: u64)
        ensures
            r == self@.average(apps@.processes, Measure::Timestamp),
    {
        let sum = self.total_of(apps, Measure::Timestamp);
        if self.processes.len() == 0 {
            0
        } else {
            sum / (self.processes.len() as u64)
        }
    }

    /// The processor time of the samples before together; `u64::MAX` where
    /// the sum is more than that.
    pub fn cpu_time_before(&self, apps: &AppsContext) -> (r: u64)
        ensures
            r == self@.cpu_time_before(apps@.processes),
    {
        self.total_of(apps, Measure::CpuTimeBefore)
    }

    /// The mean of the timestamps of the samples before, as `cpu_time_timestamp`.
    pub fn cpu_time_before_timestamp(&self, apps: &AppsContext) -> (r: u64)
        ensures
            r == self@.average(apps@.processes, Measure::TimestampBefore),
    {
        let sum = self.total_of(apps, Measure::TimestampBefore);
        if self.processes.len() == 0 {
            0
        } else {
            sum / (self.processes.len() as u64)
        }
    }

    /// The share of processor time that the living processes used
    /// together, in parts of `CPU_RATIO_SCALE` and at most all of it.
    pub fn cpu_time_ratio(&self, apps: &AppsContext) -> (r: u64)
        ensures
            r == self@.cpu_time_ratio(apps@.processes),
            r <= CPU_RATIO_SCALE,
    {
        let sum = self.total_of(apps, Measure::Ratio);
        if sum > CPU_RATIO_SCALE {
            CPU_RATIO_SCALE
        } else {
            sum
        }
    }

    /// How many living processes the application has.
    pub fn processes_amount(&self, apps: &AppsContext) -> (r: usize)
        ensures
            r == self@.processes_amount(apps@.processes),
    {
        let found = self.processes_iter(apps);
        proof {
            let members = self@.live_members(apps@.processes);
            let order = choose|order: Seq<i32>|
                is_walk(order, found.deep_view(), members, apps@.processes);
            order.unique_seq_to_set();
        }
        found.len()
    }

    /// The sandbox of the application: Flatpak where one of its living
    /// processes is sandboxed so and has a command line that is not the
    /// launcher's, else none.
    pub fn containerization(&self, apps: &AppsContext) -> (r: Containerization)
        ensures
            r == self@.containerization(apps@.processes),
    {
        let found = self.processes_iter(apps);
        let ghost members = self@.live_members(apps@.processes);
        let ghost order = choose|order: Seq<i32>|
            is_walk(order, found.deep_view(), members, apps@.processes);
        let mut i: usize = 0;
        while i < found.len()
            invariant
                i <= found.len(),
                members == self@.live_members(apps@.processes),
                is_walk(order, found.deep_view(), members, apps@.processes),
                forall|j: int| 0 <= j < i ==> !shows_flatpak(found.deep_view()[j]),
            decreases found.len() - i,
        {
            let process = found[i];
            assert(found.deep_view()[i as int] == process@);
            if !str_starts_with(process.data.commandline.as_str(), SANDBOX_LAUNCHER)
                && !process.data.commandline.as_str().is_empty() && process.data.containerization
                == Containerization::Flatpak {
                proof {
                    let pid = order[i as int];
                    assert(order.to_set().contains(pid));
                    assert(self@.has_live(apps@.processes, pid) && shows_flatpak(
                        apps@.processes[pid],
                    ));
                }
                return Containerization::Flatpak;
            }
            i = i + 1;
        }
        proof {
            assert forall|pid: i32|
                !(self@.has_live(apps@.processes, pid) && shows_flatpak(
                    apps@.processes[pid],
                )) by {
                if self@.has_live(apps@.processes, pid) {
                    assert(members.contains(pid));
                    assert(order.contains(pid));
                    let j = choose|j: int| 0 <= j < order.len() && order[j] == pid;
                    assert(found.deep_view()[j] == apps@.processes[order[j]]);
                }
            }
        }
        Containerization::Uncontained
    }

    /// What the display shows of the application.
    pub fn item(&self, apps: &AppsContext) -> (r: AppItem)
        ensures
            r@ == self@.item(apps@.processes),
    {
        AppItem {
            id: Some(self.id.clone()),
            display_name: self.display_name.clone(),
            icon: self.icon.clone(),
            description: clone_optional(&self.description),
            memory_usage: self.memory_usage(apps),
            cpu_time_ratio: self.cpu_time_ratio(apps),
            processes_amount: self.processes_amount(apps),
            containerization: self.containerization(apps),
        }
    }

    /// Brings the list of the application up to date: it holds the living
    /// processes of the application from now on, each once.
    pub fn refresh(&mut self, apps: &AppsContext)
        ensures
            final(self)@.processes.no_duplicates(),
            final(self)@.processes.to_set() == old(self)@.live_members(apps@.processes),
            final(self)@ == (AppView { processes: final(self)@.processes, ..old(self)@ }),
    {
        proof {
            use_type_invariant(apps);
        }
        let found = self.processes_iter(apps);
        let ghost members = self@.live_members(apps@.processes);
        let ghost order = choose|order: Seq<i32>|
            is_walk(order, found.deep_view(), members, apps@.processes);
        let mut alive: Vec<i32> = Vec::new();
        let mut i: usize = 0;
        while i < found.len()
            invariant
                i <= found.len(),
                apps@.wf(),
                members == self@.live_members(apps@.processes),
                is_walk(order, found.deep_view(), members, apps@.processes),
                alive@ == order.take(i as int),
            decreases found.len() - i,
        {
            let process = found[i];
            proof {
                let pid = order[i as int];
                assert(order.to_set().contains(pid));
                assert(found.deep_view()[i as int] == process@);
                assert(apps@.processes.contains_key(pid));
            }
            alive.push(process.data.pid);
            assert(alive@ =~= order.take(i + 1));
            i = i + 1;
        }
        assert(order.take(i as int) =~= order);
        self.processes = alive;
    }

    /// Sends the signal for `action` to every living process of the
    /// application through `send`, one delivery each, and hands back the
    /// outcome of each delivery; a delivery that fails stops no other.
    pub fn execute_process_action<F: Fn(i32, ProcessAction) -> i32>(
        &self,
        apps: &AppsContext,
        action: ProcessAction,
        send: &F,
    ) -> (outcomes: Vec<Result<(), ActionError>>)
        requires
            forall|pid: i32| send.requires((pid, action)),
        ensures
            fanned_out(send, action, self@.live_members(apps@.processes), outcomes@),
    {
        proof {
            use_type_invariant(apps);
        }
        let found = self.processes_iter(apps);
        let ghost members = self@.live_members(apps@.processes);
        let ghost order = choose|order: Seq<i32>|
            is_walk(order, found.deep_view(), members, apps@.processes);
        let mut outcomes: Vec<Result<(), ActionError>> = Vec::new();
        let mut i: usize = 0;
        while i < found.len()
            invariant
                i <= found.len(),
                apps@.wf(),
                forall|pid: i32| send.requires((pid, action)),
                members == self@.live_members(apps@.processes),
                is_walk(order, found.deep_view(), members, apps@.processes),
                outcomes@.len() == i,
                forall|j: int|
                    0 <= j < i ==> delivered(send, #[trigger] order[j], action, outcomes@[j]),
            decreases found.len() - i,
        {
            let process = found[i];
            proof {
                let pid = order[i as int];
                assert(order.to_set().contains(pid));
                assert(found.deep_view()[i as int] == process@);
                assert(apps@.processes.contains_key(pid));
            }
            let outcome = process.execute_process_action(action, send);
            outcomes.push(outcome);
            i = i + 1;
        }
        outcomes
    }
}

} // verus!
