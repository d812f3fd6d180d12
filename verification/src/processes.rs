//! Processes as the monitor tracks them: one sample of a process, the
//! process with its previous sample, the share of processor time it used
//! between the two, and the outcome of a signal sent to it.

use crate::text::{chars_of, contains_text, optional_text, push_char, str_contains};
use vstd::prelude::*;
use vstd::string::StringExecFns;

verus! {

/// The sandbox that a process runs in.
#[derive(Debug, Clone, Copy, PartialEq, Eq, Hash, Structural)]
pub enum Containerization {
    /// No sandbox.
    Uncontained,
    /// A Flatpak sandbox.
    Flatpak,
    /// Some other sandbox.
    Other,
}

/// What the user can ask of a process.
#[allow(clippy::upper_case_acronyms)]
#[derive(Debug, Clone, Copy, PartialEq, Eq, Hash, Structural)]
pub enum ProcessAction {
    /// End it: the process may clean up.
    TERM,
    /// Halt it until it is continued.
    STOP,
    /// Kill it at once.
    KILL,
    /// Continue it after a halt.
    CONT,
}

/// Why a signal did not reach its process.
#[derive(Debug, Clone, Copy, PartialEq, Eq, Hash, Structural)]
pub enum ActionError {
    /// The caller may not signal this process.
    NotPermitted,
    /// No process has this id any more.
    NotFound,
    /// The system refused for another reason, with its error number.
    Other(i32),
}

/// The process table of the system could not be read.
#[derive(Debug, Clone, Copy, PartialEq, Eq, Hash, Structural)]
pub struct EnumerationError {
    /// The error number that the system reported.
    pub os_code: i32,
}

/// The error number for an operation that is not permitted.
pub const EPERM: i32 = 1;

/// The error number for a process that does not exist.
pub const ESRCH: i32 = 3;

/// What the error number of a delivery means: zero is success, `EPERM` and
/// `ESRCH` have errors of their own, any other number is passed on.
pub open spec fn action_outcome(os_code: i32) -> Result<(), ActionError> {
    if os_code == 0 {
        Ok(())
    } else if os_code == EPERM {
        Err(ActionError::NotPermitted)
    } else if os_code == ESRCH {
        Err(ActionError::NotFound)
    } else {
        Err(ActionError::Other(os_code))
    }
}

/// The outcome of a delivery, from the error number that the system gave.
pub fn action_result(os_code: i32) -> (r: Result<(), ActionError>)
    ensures
        r == action_outcome(os_code),
{
    if os_code == 0 {
        Ok(())
    } else if os_code == EPERM {
        Err(ActionError::NotPermitted)
    } else if os_code == ESRCH {
        Err(ActionError::NotFound)
    } else {
        Err(ActionError::Other(os_code))
    }
}

/// The name of the signal that stands for an action, as `kill -s` takes it.
pub open spec fn signal_of(action: ProcessAction) -> Seq<char> {
    match action {
        ProcessAction::TERM => "TERM"@,
        ProcessAction::STOP => "STOP"@,
        ProcessAction::KILL => "KILL"@,
        ProcessAction::CONT => "CONT"@,
    }
}

/// The name of the signal that stands for an action.
pub fn signal_name(action: ProcessAction) -> (r: &'static str)
    ensures
        r@ == signal_of(action),
{
    match action {
        ProcessAction::TERM => "TERM",
        ProcessAction::STOP => "STOP",
        ProcessAction::KILL => "KILL",
        ProcessAction::CONT => "CONT",
    }
}

/// What `kill` prints where the caller may not signal the process.
pub const NOT_PERMITTED_TEXT: &'static str = "not permitted";

/// What `kill` prints where the process does not exist.
pub const NO_SUCH_PROCESS_TEXT: &'static str = "No such process";

/// The error number that is passed on where `kill` ended without a status.
pub const UNKNOWN_FAILURE: i32 = -1;

/// The error number that a run of the `kill` program stands for: zero
/// where it ended with status zero; else `EPERM` or `ESRCH` where its
/// complaint says so, in this order; else its status, or -1 where it has none.
pub open spec fn kill_os_code(exit_code: Option<i32>, complaint: Seq<char>) -> i32 {
    if exit_code == Some(0i32) {
        0
    } else if contains_text(complaint, NOT_PERMITTED_TEXT@) {
        EPERM
    } else if contains_text(complaint, NO_SUCH_PROCESS_TEXT@) {
        ESRCH
    } else {
        match exit_code {
            Some(code) => code,
            None => UNKNOWN_FAILURE,
        }
    }
}

/// The error number that a run of the `kill` program stands for, from its
/// exit status, if it has one, and what it printed as its complaint.
pub fn os_code_of_kill(exit_code: Option<i32>, complaint: &str) -> (r: i32)
    ensures
        r == kill_os_code(exit_code, complaint@),
        r == 0 <==> exit_code == Some(0i32),
{
    match exit_code {
        Some(0) => 0,
        _ => {
            if str_contains(complaint, NOT_PERMITTED_TEXT) {
                EPERM
            } else if str_contains(complaint, NO_SUCH_PROCESS_TEXT) {
                ESRCH
            } else {
                match exit_code {
                    Some(code) => code,
                    None => UNKNOWN_FAILURE,
                }
            }
        },
    }
}

/// A themed icon, known by its name.
#[derive(Debug)]
pub struct Icon {
    /// The name of the icon in the icon theme.
    pub name: String,
}

impl View for Icon {
    type V = Seq<char>;

    open spec fn view(&self) -> Seq<char> {
        self.name@
    }
}

impl Clone for Icon {
    fn clone(&self) -> (r: Self)
        ensures
            r@ == self@,
    {
        Icon { name: self.name.clone() }
    }
}

/// The name of the icon of a process that belongs to no application.
pub const GENERIC_PROCESS_ICON: &'static str = "generic-process";

impl Icon {
    /// The themed icon called `name`.
    pub fn themed(name: &str) -> (r: Icon)
        ensures
            r@ == name@,
    {
        Icon { name: String::from_str(name) }
    }

    /// The icon of a process that belongs to no application.
    pub fn generic_process() -> (r: Icon)
        ensures
            r@ == GENERIC_PROCESS_ICON@,
    {
        Icon::themed(GENERIC_PROCESS_ICON)
    }
}

/// One sample of one process, as the system reported it.
#[derive(Debug)]
pub struct ProcessData {
    /// The process id.
    pub pid: i32,
    /// The command line, its arguments separated by NUL as the system gives it.
    pub commandline: String,
    /// The short name of the program.
    pub comm: String,
    /// The memory in use, in bytes.
    pub memory_usage: usize,
    /// The processor time used since the process began, in ticks.
    pub cpu_time: u64,
    /// When `cpu_time` was read.
    pub cpu_time_timestamp: u64,
    /// The control group that the process belongs to, if it has one.
    pub cgroup: Option<String>,
    /// The sandbox that the process runs in.
    pub containerization: Containerization,
    /// The user that the process acts as.
    pub uid: u32,
}

/// What a `ProcessData` holds, with its texts as sequences of characters.
pub struct ProcessDataView {
    pub pid: i32,
    pub commandline: Seq<char>,
    pub comm: Seq<char>,
    pub memory_usage: usize,
    pub cpu_time: u64,
    pub cpu_time_timestamp: u64,
    pub cgroup: Option<Seq<char>>,
    pub containerization: Containerization,
    pub uid: u32,
}

/// A copy of an optional string.
pub fn clone_optional(o: &Option<String>) -> (r: Option<String>)
    ensures
        optional_text(r) == optional_text(*o),
{
    match o {
        Some(s) => Some(s.clone()),
        None => None,
    }
}

impl View for ProcessData {
    type V = ProcessDataView;

    open spec fn view(&self) -> ProcessDataView {
        ProcessDataView {
            pid: self.pid,
            commandline: self.commandline@,
            comm: self.comm@,
            memory_usage: self.memory_usage,
            cpu_time: self.cpu_time,
            cpu_time_timestamp: self.cpu_time_timestamp,
            cgroup: optional_text(self.cgroup),
            containerization: self.containerization,
            uid: self.uid,
        }
    }
}

impl DeepView for ProcessData {
    type V = ProcessDataView;

    open spec fn deep_view(&self) -> ProcessDataView {
        self@
    }
}

impl Clone for ProcessData {
    fn clone(&self) -> (r: Self)
        ensures
            r@ == self@,
    {
        ProcessData {
            pid: self.pid,
            commandline: self.commandline.clone(),
            comm: self.comm.clone(),
            memory_usage: self.memory_usage,
            cpu_time: self.cpu_time,
            cpu_time_timestamp: self.cpu_time_timestamp,
            cgroup: clone_optional(&self.cgroup),
            containerization: self.containerization,
            uid: self.uid,
        }
    }
}

/// A process across refreshes: its latest sample, the processor time and the
/// timestamp of the sample before, and whether the system still lists it.
#[derive(Debug)]
pub struct Process {
    /// The latest sample.
    pub data: ProcessData,
    /// The icon: that of the application it belongs to, else the generic one.
    pub icon: Icon,
    /// The processor time of the sample before the latest.
    pub cpu_time_before: u64,
    /// When the sample before the latest was read.
    pub cpu_time_before_timestamp: u64,
    /// Whether the latest enumeration listed the process.
    pub alive: bool,
}

/// What a `Process` holds, with its texts as sequences of characters.
pub struct ProcessView {
    pub data: ProcessDataView,
    pub icon: Seq<char>,
    pub cpu_time_before: u64,
    pub cpu_time_before_timestamp: u64,
    pub alive: bool,
}

impl View for Process {
    type V = ProcessView;

    open spec fn view(&self) -> ProcessView {
        ProcessView {
            data: self.data@,
            icon: self.icon@,
            cpu_time_before: self.cpu_time_before,
            cpu_time_before_timestamp: self.cpu_time_before_timestamp,
            alive: self.alive,
        }
    }
}

impl DeepView for Process {
    type V = ProcessView;

    open spec fn deep_view(&self) -> ProcessView {
        self@
    }
}

impl Clone for Process {
    fn clone(&self) -> (r: Self)
        ensures
            r@ == self@,
    {
        Process {
            data: self.data.clone(),
            icon: self.icon.clone(),
            cpu_time_before: self.cpu_time_before,
            cpu_time_before_timestamp: self.cpu_time_before_timestamp,
            alive: self.alive,
        }
    }
}

/// The unit of a share of processor time: a share of one is this many parts.
pub const CPU_RATIO_SCALE: u64 = 1_000_000;

/// The share of processor time that `delta_cpu` ticks are of `delta_time`
/// ticks, kept between nothing and all of it and counted in parts of
/// `CPU_RATIO_SCALE`, rounded down. Nothing where no time has passed.
pub open spec fn clamped_ratio(delta_cpu: int, delta_time: int) -> int {
    if delta_time <= 0 || delta_cpu <= 0 {
        0
    } else if delta_cpu >= delta_time {
        CPU_RATIO_SCALE as int
    } else {
        delta_cpu * CPU_RATIO_SCALE / delta_time
    }
}

/// A share of processor time is never less than nothing nor more than all.
pub proof fn lemma_clamped_ratio_bounds(delta_cpu: int, delta_time: int)
    ensures
        0 <= clamped_ratio(delta_cpu, delta_time) <= CPU_RATIO_SCALE,
{
    if delta_time > 0 && 0 < delta_cpu < delta_time {
        let scaled = delta_cpu * CPU_RATIO_SCALE;
        assert(0 <= scaled <= delta_time * CPU_RATIO_SCALE) by (nonlinear_arith)
            requires
                0 < delta_cpu < delta_time,
                scaled == delta_cpu * CPU_RATIO_SCALE,
        ;
        assert(0 <= scaled / delta_time <= CPU_RATIO_SCALE) by (nonlinear_arith)
            requires
                0 <= scaled <= delta_time * CPU_RATIO_SCALE,
                delta_time > 0,
        ;
    }
}

/// Between nothing and all, the share is the quotient of the processor time
/// by the time that passed, to within one part of `CPU_RATIO_SCALE`.
pub proof fn lemma_clamped_ratio_is_the_quotient(delta_cpu: int, delta_time: int)
    requires
        0 < delta_cpu < delta_time,
    ensures
        clamped_ratio(delta_cpu, delta_time) * delta_time <= delta_cpu * CPU_RATIO_SCALE,
        delta_cpu * CPU_RATIO_SCALE < (clamped_ratio(delta_cpu, delta_time) + 1) * delta_time,
{
    let scaled = delta_cpu * CPU_RATIO_SCALE;
    let parts = scaled / delta_time;
    vstd::arithmetic::div_mod::lemma_fundamental_div_mod(scaled, delta_time);
    vstd::arithmetic::div_mod::lemma_mod_bound(scaled, delta_time);
    assert(parts * delta_time == delta_time * parts) by (nonlinear_arith);
    assert((parts + 1) * delta_time == delta_time * parts + delta_time) by (nonlinear_arith);
}

impl ProcessView {
    /// The processor time used between the two samples.
    pub open spec fn delta_cpu(self) -> int {
        self.data.cpu_time - self.cpu_time_before
    }

    /// The time that passed between the two samples.
    pub open spec fn delta_time(self) -> int {
        self.data.cpu_time_timestamp - self.cpu_time_before_timestamp
    }

    /// The share of processor time used between the two samples.
    pub open spec fn cpu_time_ratio(self) -> int {
        clamped_ratio(self.delta_cpu(), self.delta_time())
    }

    /// What the display shows of the process.
    pub open spec fn item(self) -> ProcessItemView {
        ProcessItemView {
            pid: self.data.pid,
            display_name: self.data.comm,
            icon: self.icon,
            memory_usage: self.data.memory_usage,
            cpu_time_ratio: self.cpu_time_ratio() as u64,
            commandline: sanitized(self.data.commandline),
            containerization: self.data.containerization,
            cgroup: self.data.cgroup,
            uid: self.data.uid,
        }
    }

    /// The process once a further sample of it has arrived: the latest sample
    /// becomes the one before, and `fresh` the latest.
    pub open spec fn updated(self, fresh: ProcessDataView) -> ProcessView {
        ProcessView {
            data: fresh,
            icon: self.icon,
            cpu_time_before: self.data.cpu_time,
            cpu_time_before_timestamp: self.data.cpu_time_timestamp,
            alive: self.alive,
        }
    }

    /// The process once an enumeration no longer lists it.
    pub open spec fn dead(self) -> ProcessView {
        ProcessView { alive: false, ..self }
    }
}

/// The process as it is first seen: alive, with the generic icon, and with
/// its one sample standing for the sample before as well.
pub open spec fn first_seen(data: ProcessDataView) -> ProcessView {
    ProcessView {
        data,
        icon: GENERIC_PROCESS_ICON@,
        cpu_time_before: data.cpu_time,
        cpu_time_before_timestamp: data.cpu_time_timestamp,
        alive: true,
    }
}

/// A command line for display: each NUL that separates two arguments has
/// become a space.
pub open spec fn sanitized(commandline: Seq<char>) -> Seq<char> {
    Seq::new(
        commandline.len(),
        |i: int|
            if commandline[i] == '\0' {
                ' '
            } else {
                commandline[i]
            },
    )
}

impl Process {
    /// The process as it is first seen.
    pub fn new(data: ProcessData) -> (r: Process)
        ensures
            r@ == first_seen(data@),
    {
        let cpu_time = data.cpu_time;
        let cpu_time_timestamp = data.cpu_time_timestamp;
        Process {
            data,
            icon: Icon::generic_process(),
            cpu_time_before: cpu_time,
            cpu_time_before_timestamp: cpu_time_timestamp,
            alive: true,
        }
    }

    /// The share of processor time that the process used between its two
    /// samples, in parts of `CPU_RATIO_SCALE`.
    pub fn cpu_time_ratio(&self) -> (r: u64)
        ensures
            r == self@.cpu_time_ratio(),
            r <= CPU_RATIO_SCALE,
    {
        proof {
            lemma_clamped_ratio_bounds(self@.delta_cpu(), self@.delta_time());
        }
        if self.data.cpu_time_timestamp <= self.cpu_time_before_timestamp
            || self.data.cpu_time <= self.cpu_time_before {
            return 0;
        }
        let delta_cpu: u64 = self.data.cpu_time - self.cpu_time_before;
        let delta_time: u64 = self.data.cpu_time_timestamp - self.cpu_time_before_timestamp;
        if delta_cpu >= delta_time {
            return CPU_RATIO_SCALE;
        }
        let scaled: u128 = (delta_cpu as u128) * (CPU_RATIO_SCALE as u128);
        let parts: u128 = scaled / (delta_time as u128);
        parts as u64
    }

    /// A command line for display.
    pub fn sanitize_cmdline(commandline: &str) -> (r: String)
        ensures
            r@ == sanitized(commandline@),
    {
        let chars = chars_of(commandline);
        let mut out = String::new();
        let mut i: usize = 0;
        while i < chars.len()
            invariant
                i <= chars@.len(),
                chars@ == commandline@,
                out@ == sanitized(commandline@).take(i as int),
            decreases chars@.len() - i,
        {
            let c = chars[i];
            let shown = if c == '\0' {
                ' '
            } else {
                c
            };
            push_char(&mut out, shown);
            assert(out@ =~= sanitized(commandline@).take(i + 1));
            i = i + 1;
        }
        assert(out@ =~= sanitized(commandline@));
        out
    }

    /// What the display shows of the process.
    pub fn item(&self) -> (r: ProcessItem)
        ensures
            r@ == self@.item(),
    {
        ProcessItem {
            pid: self.data.pid,
            display_name: self.data.comm.clone(),
            icon: self.icon.clone(),
            memory_usage: self.data.memory_usage,
            cpu_time_ratio: self.cpu_time_ratio(),
            commandline: Process::sanitize_cmdline(self.data.commandline.as_str()),
            containerization: self.data.containerization,
            cgroup: clone_optional(&self.data.cgroup),
            uid: self.data.uid,
        }
    }

    /// Sends the signal for `action` to the process through `send`, which
    /// takes the process id and the action and gives the error number of the
    /// system, zero where the signal was delivered. One delivery, no retry.
    pub fn execute_process_action<F: Fn(i32, ProcessAction) -> i32>(
        &self,
        action: ProcessAction,
        send: &F,
    ) -> (r: Result<(), ActionError>)
        requires
            send.requires((self.data.pid, action)),
        ensures
            delivered(send, self.data.pid, action, r),
    {
        let os_code = send(self.data.pid, action);
        action_result(os_code)
    }
}

/// Whether `outcome` is what one call of `send` for `pid` and `action` came to.
pub open spec fn delivered<F: Fn(i32, ProcessAction) -> i32>(
    send: &F,
    pid: i32,
    action: ProcessAction,
    outcome: Result<(), ActionError>,
) -> bool {
    exists|os_code: i32| #[trigger]
        send.ensures((pid, action), os_code) && outcome == action_outcome(os_code)
}

/// What the display shows of one process: a copy that owns all it holds.
#[derive(Debug)]
pub struct ProcessItem {
    pub pid: i32,
    pub display_name: String,
    pub icon: Icon,
    pub memory_usage: usize,
    /// The share of processor time, in parts of `CPU_RATIO_SCALE`.
    pub cpu_time_ratio: u64,
    pub commandline: String,
    pub containerization: Containerization,
    pub cgroup: Option<String>,
    pub uid: u32,
}

/// What a `ProcessItem` holds, with its texts as sequences of characters.
pub struct ProcessItemView {
    pub pid: i32,
    pub display_name: Seq<char>,
    pub icon: Seq<char>,
    pub memory_usage: usize,
    pub cpu_time_ratio: u64,
    pub commandline: Seq<char>,
    pub containerization: Containerization,
    pub cgroup: Option<Seq<char>>,
    pub uid: u32,
}

impl View for ProcessItem {
    type V = ProcessItemView;

    open spec fn view(&self) -> ProcessItemView {
        ProcessItemView {
            pid: self.pid,
            display_name: self.display_name@,
            icon: self.icon@,
            memory_usage: self.memory_usage,
            cpu_time_ratio: self.cpu_time_ratio,
            commandline: self.commandline@,
            containerization: self.containerization,
            cgroup: optional_text(self.cgroup),
            uid: self.uid,
        }
    }
}

impl DeepView for ProcessItem {
    type V = ProcessItemView;

    open spec fn deep_view(&self) -> ProcessItemView {
        self@
    }
}

impl Clone for ProcessItem {
    fn clone(&self) -> (r: Self)
        ensures
            r@ == self@,
    {
        ProcessItem {
            pid: self.pid,
            display_name: self.display_name.clone(),
            icon: self.icon.clone(),
            memory_usage: self.memory_usage,
            cpu_time_ratio: self.cpu_time_ratio,
            commandline: self.commandline.clone(),
            containerization: self.containerization,
            cgroup: clone_optional(&self.cgroup),
            uid: self.uid,
        }
    }
}

} // verus!
