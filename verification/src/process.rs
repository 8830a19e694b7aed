//! The controller of the one external game process: when to launch, what to
//! report, and how to bring the whole process group down.
//!
//! The controller is a plain state machine. Whoever drives it spawns,
//! probes and signals the process, keeps its own handle `C` on the child in
//! the controller's slot, and tells the controller what each probe found.

use vstd::prelude::*;
use crate::text::{joined_text, option_text};

verus! {

/// What a non-blocking look at the child process found.
#[derive(Clone, Copy, Debug, PartialEq, Eq, Structural)]
pub enum Liveness {
    /// The process has exited.
    Exited,
    /// The process is still running.
    Running,
    /// The look itself failed.
    Unknown,
}

/// What the launcher reports about the game process.
#[derive(Clone, Copy, Debug, PartialEq, Eq, Structural)]
pub struct ProcessStatus {
    pub running: bool,
    pub pid: Option<u32>,
}

/// The process in the slot: its id, which is also the id of the group it
/// leads, and the caller's handle on it.
pub struct ProcessHandle<C> {
    pub pid: u32,
    pub child: C,
}

/// Why a launch did not happen.
#[derive(Clone, Debug, PartialEq, Eq)]
pub enum LaunchError {
    /// The lock on the shared state could not be taken.
    StateLock,
    /// There is no executable at this path.
    NotFound(String),
    /// The executable is there but could not be started; holds the reason.
    Spawn(String),
}

impl LaunchError {
    /// The message that the caller is shown.
    pub open spec fn text(self) -> Seq<char> {
        match self {
            LaunchError::StateLock => "state lock failed"@,
            LaunchError::NotFound(path) => "game executable not found: "@ + path@,
            LaunchError::Spawn(reason) => "failed to launch game: "@ + reason@,
        }
    }

    /// Writes the message that the caller is shown.
    pub fn message(&self) -> (message: String)
        ensures
            message@ == self.text(),
    {
        match self {
            LaunchError::StateLock => "state lock failed".to_owned(),
            LaunchError::NotFound(path) => joined_text(
                "game executable not found: ",
                path.as_str(),
            ),
            LaunchError::Spawn(reason) => joined_text("failed to launch game: ", reason.as_str()),
        }
    }
}

/// The status of a process that is there.
pub open spec fn running_status(pid: u32) -> ProcessStatus {
    ProcessStatus { running: true, pid: Some(pid) }
}

/// The status when no process is there.
pub open spec fn stopped_status() -> ProcessStatus {
    ProcessStatus { running: false, pid: None }
}

/// Whether the process in `slot` counts as running after a probe: there is
/// one, and the probe did not find that it has exited. A probe that failed
/// proves nothing, so the process still counts.
pub open spec fn counts_as_running<C>(slot: Option<ProcessHandle<C>>, probe: Liveness) -> bool {
    slot is Some && probe != Liveness::Exited
}

/// The status to report for `slot` after a probe.
pub open spec fn status_of<C>(slot: Option<ProcessHandle<C>>, probe: Liveness) -> ProcessStatus {
    if counts_as_running(slot, probe) {
        running_status(slot->0.pid)
    } else {
        stopped_status()
    }
}

/// The slot after a probe: a process that has exited is taken out.
pub open spec fn slot_after_probe<C>(slot: Option<ProcessHandle<C>>, probe: Liveness) -> Option<
    ProcessHandle<C>,
> {
    if counts_as_running(slot, probe) {
        slot
    } else {
        None
    }
}

/// The handle that a probe takes out of `slot`: that of a process that has
/// exited.
pub open spec fn handle_left<C>(slot: Option<ProcessHandle<C>>, probe: Liveness) -> Option<
    ProcessHandle<C>,
> {
    if counts_as_running(slot, probe) {
        None
    } else {
        slot
    }
}

/// The slot after a launch that ended in `outcome`: the new process on
/// success, and what was there before on failure.
pub open spec fn slot_after_launch<C>(
    slot: Option<ProcessHandle<C>>,
    outcome: Result<ProcessHandle<C>, LaunchError>,
) -> Option<ProcessHandle<C>> {
    match outcome {
        Ok(handle) => Some(handle),
        Err(_) => slot,
    }
}

/// What a launch that ended in `outcome` reports.
pub open spec fn launch_report<C>(outcome: Result<ProcessHandle<C>, LaunchError>) -> Result<
    ProcessStatus,
    LaunchError,
> {
    match outcome {
        Ok(handle) => Ok(running_status(handle.pid)),
        Err(error) => Err(error),
    }
}

/// The outcome of a launch that ended because no executable was found at
/// `path`.
pub open spec fn not_found<C>(path: String) -> Result<ProcessHandle<C>, LaunchError> {
    Err(LaunchError::NotFound(path))
}

/// What `start` finds in the slot.
pub enum StartDecision<C> {
    /// A process counts as running: this is its status, and nothing is to
    /// be done.
    AlreadyRunning(ProcessStatus),
    /// No process is running: one is to be launched. Holds the handle of a
    /// process that has exited, if one was left in the slot.
    Launch(Option<ProcessHandle<C>>),
}

/// The single slot for the game process.
pub struct ProcessController<C> {
    slot: Option<ProcessHandle<C>>,
}

impl<C> View for ProcessController<C> {
    type V = Option<ProcessHandle<C>>;

    closed spec fn view(&self) -> Option<ProcessHandle<C>> {
        self.slot
    }
}

impl<C> ProcessController<C> {
    /// A controller that has launched nothing.
    pub fn new() -> (controller: Self)
        ensures
            controller@ is None,
    {
        ProcessController { slot: None }
    }

    /// The id of the process in the slot.
    pub fn pid(&self) -> (pid: Option<u32>)
        ensures
            pid.is_some() == self@.is_some(),
            pid matches Some(id) ==> self@->0.pid == id,
    {
        match &self.slot {
            Some(handle) => Some(handle.pid),
            None => None,
        }
    }

    /// The caller's handle on the process in the slot, for probing it.
    pub fn child(&self) -> (child: Option<&C>)
        ensures
            child.is_some() == self@.is_some(),
            child matches Some(c) ==> self@->0.child == *c,
    {
        match &self.slot {
            Some(handle) => Some(&handle.child),
            None => None,
        }
    }

    /// Reports the process, given what a probe of the handle in the slot
    /// found. A process that has exited is taken out of the slot, and its
    /// handle handed back, so that the next start is not held up.
    pub fn status(&mut self, probe: Liveness) -> (r: (ProcessStatus, Option<ProcessHandle<C>>))
        ensures
            r.0 == status_of(old(self)@, probe),
            r.1 == handle_left(old(self)@, probe),
            final(self)@ == slot_after_probe(old(self)@, probe),
    {
        match self.slot.take() {
            Some(handle) => {
                if probe == Liveness::Exited {
                    (ProcessStatus { running: false, pid: None }, Some(handle))
                } else {
                    let status = ProcessStatus { running: true, pid: Some(handle.pid) };
                    self.slot = Some(handle);
                    (status, None)
                }
            },
            None => (ProcessStatus { running: false, pid: None }, None),
        }
    }

    /// Decides what a request to start the process leads to, given what a
    /// probe of the handle in the slot found. While a process counts as
    /// running the slot stays as it is and no second one is launched.
    pub fn start(&mut self, probe: Liveness) -> (decision: StartDecision<C>)
        ensures
            final(self)@ == slot_after_probe(old(self)@, probe),
            decision matches StartDecision::AlreadyRunning(status) ==> counts_as_running(
                old(self)@,
                probe,
            ) && status == status_of(old(self)@, probe),
            decision matches StartDecision::Launch(left) ==> !counts_as_running(old(self)@, probe)
                && left == old(self)@,
    {
        match self.slot.take() {
            Some(handle) => {
                if probe == Liveness::Exited {
                    StartDecision::Launch(Some(handle))
                } else {
                    let status = ProcessStatus { running: true, pid: Some(handle.pid) };
                    self.slot = Some(handle);
                    StartDecision::AlreadyRunning(status)
                }
            },
            None => StartDecision::Launch(None),
        }
    }

    /// Takes note of how a launch ended. A process that was spawned goes
    /// into the slot and is reported; a failure is handed on and leaves the
    /// slot as it was.
    pub fn launched(&mut self, outcome: Result<ProcessHandle<C>, LaunchError>) -> (r: Result<
        ProcessStatus,
        LaunchError,
    >)
        ensures
            r == launch_report(outcome),
            final(self)@ == slot_after_launch(old(self)@, outcome),
    {
        match outcome {
            Ok(handle) => {
                let status = ProcessStatus { running: true, pid: Some(handle.pid) };
                self.slot = Some(handle);
                Ok(status)
            },
            Err(error) => Err(error),
        }
    }

    /// Empties the slot and reports "stopped", whatever the slot held. Hands
    /// back the handle of the process to bring down, if there was one.
    pub fn stop(&mut self) -> (r: (ProcessStatus, Option<ProcessHandle<C>>))
        ensures
            final(self)@ is None,
            r.0 == stopped_status(),
            r.1 == old(self)@,
    {
        (ProcessStatus { running: false, pid: None }, self.slot.take())
    }
}

/// The path of the executable to launch: the one given, or else the
/// configured default.
pub open spec fn chosen_executable(explicit: Option<Seq<char>>, default: Seq<char>) -> Seq<char> {
    match explicit {
        Some(path) => path,
        None => default,
    }
}

/// Picks the path of the executable to launch.
pub fn executable_path(explicit: Option<&str>, default: &str) -> (path: String)
    ensures
        path@ == chosen_executable(option_text(explicit), default@),
{
    match explicit {
        Some(path) => path.to_owned(),
        None => default.to_owned(),
    }
}

/// What the search for the executable at `path` ends in, given whether a
/// file is there.
pub open spec fn resolution(path: String, exists: bool) -> Result<String, LaunchError> {
    if exists {
        Ok(path)
    } else {
        Err(LaunchError::NotFound(path))
    }
}

/// Accepts the executable at `path` if a file is there.
pub fn resolve_executable(path: String, exists: bool) -> (r: Result<String, LaunchError>)
    ensures
        r == resolution(path, exists),
{
    if exists {
        Ok(path)
    } else {
        Err(LaunchError::NotFound(path))
    }
}

/// A signal for a process group.
#[derive(Clone, Copy, Debug, PartialEq, Eq, Structural)]
pub enum Signal {
    /// Asks the processes to end.
    Terminate,
    /// Ends the processes.
    Kill,
}

/// One step of bringing the process down.
#[derive(Clone, Copy, Debug, PartialEq, Eq, Structural)]
pub enum StopAction {
    /// Send `signal` to the process group addressed by `target`, the
    /// negated group id.
    SignalGroup { target: i32, signal: Signal },
    /// Let this many milliseconds pass.
    Wait { millis: u64 },
    /// Kill the process itself.
    KillProcess,
    /// Block until the process has been reaped.
    Reap,
}

/// How long a process group is given to end by itself, in milliseconds.
pub const GRACE_PERIOD_MILLIS: u64 = 600;

/// The address of the group that the process `pid` leads: the negated id,
/// where that is a negative `i32`.
pub open spec fn group_target(pid: u32) -> Option<i32> {
    if 0 < pid <= 0x7fff_ffff {
        Some((0 - pid) as i32)
    } else {
        None
    }
}

/// The first steps of a stop, before the probe: where process groups can be
/// signalled, the group is asked to end and given the grace period.
pub open spec fn graceful_plan(pid: u32, groups: bool) -> Seq<StopAction> {
    if groups && group_target(pid) is Some {
        seq![
            StopAction::SignalGroup { target: group_target(pid)->0, signal: Signal::Terminate },
            StopAction::Wait { millis: GRACE_PERIOD_MILLIS },
        ]
    } else {
        seq![]
    }
}

/// The last steps of a stop, after the probe that follows the grace period:
/// a group that has not been found to have exited is killed, and in every
/// case the process itself is killed and reaped.
pub open spec fn forced_plan(pid: u32, groups: bool, probe: Liveness) -> Seq<StopAction> {
    let escalate = if groups && group_target(pid) is Some && probe != Liveness::Exited {
        seq![StopAction::SignalGroup { target: group_target(pid)->0, signal: Signal::Kill }]
    } else {
        seq![]
    };
    escalate + seq![StopAction::KillProcess, StopAction::Reap]
}

/// Computes the address of the group that the process `pid` leads.
pub fn signal_target(pid: u32) -> (target: Option<i32>)
    ensures
        target == group_target(pid),
{
    if 0 < pid && pid <= 0x7fff_ffff {
        Some(0 - (pid as i32))
    } else {
        None
    }
}

/// Plans the first steps of stopping the process `pid`, where `groups` says
/// whether this platform can signal process groups.
pub fn graceful_actions(pid: u32, groups: bool) -> (actions: Vec<StopAction>)
    ensures
        actions@ == graceful_plan(pid, groups),
{
    let mut actions: Vec<StopAction> = Vec::new();
    if groups {
        match signal_target(pid) {
            Some(target) => {
                actions.push(StopAction::SignalGroup { target, signal: Signal::Terminate });
                actions.push(StopAction::Wait { millis: GRACE_PERIOD_MILLIS });
            },
            None => {},
        }
    }
    assert(actions@ =~= graceful_plan(pid, groups));
    actions
}

/// Plans the last steps of stopping the process `pid`, given what the probe
/// after the grace period found.
pub fn forced_actions(pid: u32, groups: bool, probe: Liveness) -> (actions: Vec<StopAction>)
    ensures
        actions@ == forced_plan(pid, groups, probe),
{
    let mut actions: Vec<StopAction> = Vec::new();
    if groups && probe != Liveness::Exited {
        match signal_target(pid) {
            Some(target) => {
                actions.push(StopAction::SignalGroup { target, signal: Signal::Kill });
            },
            None => {},
        }
    }
    actions.push(StopAction::KillProcess);
    actions.push(StopAction::Reap);
    assert(actions@ =~= forced_plan(pid, groups, probe));
    actions
}

/// Stopping is final: once the slot has been emptied, no probe can make the
/// controller report a running process again, and no probe puts anything
/// back into the slot.
pub proof fn lemma_stop_is_final<C>(probe: Liveness)
    ensures
        status_of(None::<ProcessHandle<C>>, probe) == stopped_status(),
        slot_after_probe(None::<ProcessHandle<C>>, probe) is None,
{
}

/// An executable that is not there is reported as not found, under the path
/// that was looked for, and the launch that ends so changes nothing: the
/// slot is as before, and so is the status after any probe.
pub proof fn lemma_missing_executable_changes_nothing<C>(
    slot: Option<ProcessHandle<C>>,
    path: String,
    probe: Liveness,
)
    ensures
        resolution(path, false) == Err::<String, LaunchError>(LaunchError::NotFound(path)),
        launch_report(not_found::<C>(path)) == Err::<ProcessStatus, LaunchError>(
            LaunchError::NotFound(path),
        ),
        slot_after_launch(slot, not_found(path)) == slot,
        status_of(slot_after_launch(slot, not_found(path)), probe) == status_of(slot, probe),
{
}

/// Any launch that fails hands its error on and leaves the slot as it was.
pub proof fn lemma_failed_launch_changes_nothing<C>(
    slot: Option<ProcessHandle<C>>,
    error: LaunchError,
)
    ensures
        launch_report(Err::<ProcessHandle<C>, LaunchError>(error)) == Err::<
            ProcessStatus,
            LaunchError,
        >(error),
        slot_after_launch(slot, Err(error)) == slot,
{
}

/// While a process counts as running, starting again launches nothing: the
/// slot stays as it is and the status of the process in it is reported.
pub proof fn lemma_start_is_idempotent<C>(handle: ProcessHandle<C>, probe: Liveness)
    requires
        probe != Liveness::Exited,
    ensures
        counts_as_running(Some(handle), probe),
        slot_after_probe(Some(handle), probe) == Some(handle),
        status_of(Some(handle), probe) == running_status(handle.pid),
{
}

/// Every stop ends by killing the process itself and reaping it, whatever
/// the platform can do and whatever the probe found.
pub proof fn lemma_stop_always_kills_and_reaps(pid: u32, groups: bool, probe: Liveness)
    ensures
        forced_plan(pid, groups, probe).len() >= 2,
        forced_plan(pid, groups, probe).last() == StopAction::Reap,
        forced_plan(pid, groups, probe)[forced_plan(pid, groups, probe).len() - 2]
            == StopAction::KillProcess,
{
}

} // verus!
