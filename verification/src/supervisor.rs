//! The loop that keeps a group of capture tasks alive: scan for devices,
//! run one task per device, and once every task has ended wait and scan
//! again.
use vstd::prelude::*;

verus! {

/// How long to wait before scanning again, in seconds.
pub const RETRY_DELAY: u64 = 60;

/// Where a group stands.
#[derive(Clone, Copy, Debug, PartialEq, Eq, Structural)]
pub enum Supervisor {
    /// A scan is under way.
    Scanning,
    /// This many capture tasks run; at least one.
    Running(usize),
    /// Every task has ended; the delay runs.
    Waiting,
}

/// What the group's loop reports.
#[derive(Clone, Copy, Debug, PartialEq, Eq, Structural)]
pub enum SupervisorEvent {
    /// The scan found this many devices, and a task was spawned for each.
    Spawned(usize),
    /// One capture task ended.
    TaskEnded,
    /// The delay has passed.
    DelayPassed,
}

/// What the group's loop is to do next.
#[derive(Clone, Copy, Debug, PartialEq, Eq, Structural)]
pub enum SupervisorAction {
    /// Scan for devices and spawn a task for each.
    Scan,
    /// Wait for a task to end.
    Join,
    /// Wait this many seconds.
    Sleep(u64),
}

impl Supervisor {
    /// The state and the action that follow a report.
    pub open spec fn after(self, event: SupervisorEvent) -> (Supervisor, SupervisorAction) {
        match (self, event) {
            (Supervisor::Scanning, SupervisorEvent::Spawned(tasks)) => if tasks == 0 {
                (Supervisor::Waiting, SupervisorAction::Sleep(RETRY_DELAY))
            } else {
                (Supervisor::Running(tasks), SupervisorAction::Join)
            },
            (Supervisor::Running(tasks), SupervisorEvent::TaskEnded) => if tasks <= 1 {
                (Supervisor::Waiting, SupervisorAction::Sleep(RETRY_DELAY))
            } else {
                (Supervisor::Running((tasks - 1) as usize), SupervisorAction::Join)
            },
            (Supervisor::Waiting, SupervisorEvent::DelayPassed) => (
                Supervisor::Scanning,
                SupervisorAction::Scan,
            ),
            (Supervisor::Scanning, _) => (Supervisor::Scanning, SupervisorAction::Scan),
            (Supervisor::Running(tasks), _) => (Supervisor::Running(tasks), SupervisorAction::Join),
            (Supervisor::Waiting, _) => (Supervisor::Waiting, SupervisorAction::Sleep(RETRY_DELAY)),
        }
    }

    /// A group that is about to scan for the first time.
    pub fn new() -> (supervisor: Supervisor)
        ensures
            supervisor == Supervisor::Scanning,
    {
        Supervisor::Scanning
    }

    /// Takes one report and returns what to do next. A report that the
    /// state does not wait for changes nothing: the action it waits with
    /// is handed out again.
    pub fn step(&mut self, event: SupervisorEvent) -> (action: SupervisorAction)
        ensures
            (*final(self), action) == old(self).after(event),
    {
        let (next, action) = match (*self, event) {
            (Supervisor::Scanning, SupervisorEvent::Spawned(tasks)) => if tasks == 0 {
                (Supervisor::Waiting, SupervisorAction::Sleep(RETRY_DELAY))
            } else {
                (Supervisor::Running(tasks), SupervisorAction::Join)
            },
            (Supervisor::Running(tasks), SupervisorEvent::TaskEnded) => if tasks <= 1 {
                (Supervisor::Waiting, SupervisorAction::Sleep(RETRY_DELAY))
            } else {
                (Supervisor::Running(tasks - 1), SupervisorAction::Join)
            },
            (Supervisor::Waiting, SupervisorEvent::DelayPassed) => (
                Supervisor::Scanning,
                SupervisorAction::Scan,
            ),
            (Supervisor::Scanning, _) => (Supervisor::Scanning, SupervisorAction::Scan),
            (Supervisor::Running(tasks), _) => (Supervisor::Running(tasks), SupervisorAction::Join),
            (Supervisor::Waiting, _) => (Supervisor::Waiting, SupervisorAction::Sleep(RETRY_DELAY)),
        };
        *self = next;
        action
    }
}

} // verus!
