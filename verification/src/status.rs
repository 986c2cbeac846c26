use vstd::prelude::*;

verus! {

/// Lifecycle state of a job.
#[derive(Clone, Copy, Debug, PartialEq, Eq, Structural)]
pub enum JobStatus {
    /// Allocated, child not spawned yet.
    Pending,
    /// Child alive.
    Running { pid: u32 },
    /// Child exited normally.
    Finished { exit_code: i32 },
    /// Child terminated by a signal.
    Killed { signal: i32 },
}

/// How a child process ended, as reported by the wait on it.
#[derive(Clone, Copy, Debug, PartialEq, Eq, Structural)]
pub enum ExitStatus {
    /// Normal exit with the given code.
    Exited { code: i32 },
    /// Termination by the given signal.
    Signaled { signal: i32 },
}

impl JobStatus {
    /// Finished and Killed are terminal.
    pub open spec fn terminal(self) -> bool {
        self is Finished || self is Killed
    }

    /// Position of the status in the lifecycle: Pending, then Running, then
    /// a terminal status.
    pub open spec fn stage(self) -> nat {
        match self {
            JobStatus::Pending => 0,
            JobStatus::Running { .. } => 1,
            JobStatus::Finished { .. } => 2,
            JobStatus::Killed { .. } => 2,
        }
    }

    /// One edge of the lifecycle: Pending to Running, or Running to a
    /// terminal status.
    pub open spec fn steps_to(self, next: JobStatus) -> bool {
        (self is Pending && next is Running) || (self is Running && next.terminal())
    }

    /// `later` may be observed at or after the time `self` was observed:
    /// either nothing changed or the lifecycle moved strictly forward.
    pub open spec fn leads_to(self, later: JobStatus) -> bool {
        self == later || self.stage() < later.stage()
    }

    /// The terminal status that an exit report produces.
    pub open spec fn of_exit(exit: ExitStatus) -> JobStatus {
        match exit {
            ExitStatus::Exited { code } => JobStatus::Finished { exit_code: code },
            ExitStatus::Signaled { signal } => JobStatus::Killed { signal },
        }
    }

    pub fn is_terminal(&self) -> (r: bool)
        ensures
            r == self.terminal(),
    {
        match self {
            JobStatus::Finished { .. } => true,
            JobStatus::Killed { .. } => true,
            _ => false,
        }
    }

    /// Status after the child reported `exit`.
    pub fn from_exit(exit: ExitStatus) -> (r: JobStatus)
        ensures
            r == JobStatus::of_exit(exit),
            r.terminal(),
    {
        match exit {
            ExitStatus::Exited { code } => JobStatus::Finished { exit_code: code },
            ExitStatus::Signaled { signal } => JobStatus::Killed { signal },
        }
    }
}

/// Every lifecycle edge moves forward.
pub proof fn lemma_step_leads(a: JobStatus, b: JobStatus)
    requires
        a.steps_to(b),
    ensures
        a.leads_to(b),
        !a.terminal(),
{
}

/// Observations compose: what may follow a later status may follow an
/// earlier one.
pub proof fn lemma_leads_to_transitive(a: JobStatus, b: JobStatus, c: JobStatus)
    requires
        a.leads_to(b),
        b.leads_to(c),
    ensures
        a.leads_to(c),
{
}

/// A terminal status is never followed by a different status, and in
/// particular never by a non-terminal one.
pub proof fn lemma_terminal_is_final(a: JobStatus, b: JobStatus)
    requires
        a.terminal(),
        a.leads_to(b),
    ensures
        b == a,
        b.terminal(),
{
}

} // verus!
