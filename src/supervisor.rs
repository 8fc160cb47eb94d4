//! The supervision of the two child processes as a state machine: the caller
//! spawns, polls and kills processes, and hands each outcome to it; it
//! answers with the next action. There is no backoff and no restart limit:
//! an exited child is restarted at every health check.
use vstd::prelude::*;
use vstd::string::*;
use crate::text::{decimal, decimal_spec, lemma_decimal};

verus! {

/// The life cycle of one managed process.
#[derive(PartialEq, Eq, Structural, Clone, Copy, Debug)]
pub enum ChildState {
    NotStarted,
    Starting,
    Running,
    Exited,
    Restarting,
    Stopped,
}

/// The outcome of a non-blocking poll of a child's exit status.
#[derive(PartialEq, Eq, Structural, Clone, Copy, Debug)]
pub enum PollResult {
    /// The child still runs.
    StillRunning,
    /// The child exited with this code (255 where the OS gave none).
    Exited(i32),
    /// The poll itself failed.
    PollFailed,
}

/// What the caller must do after a health check.
#[derive(PartialEq, Eq, Structural, Clone, Copy, Debug)]
pub enum SupervisorAction {
    /// Nothing: the child runs.
    Nothing,
    /// Spawn the child again with the same program and arguments, after
    /// `begin_restart`, then report the new PID with `record_spawn`.
    Respawn,
    /// The supervision cannot go on: end the session with a failure.
    Fatal,
}

/// The state and action after a health check of a child in state `s`
/// whose poll gave `poll`.
pub open spec fn health_spec(s: ChildState, poll: PollResult) -> (ChildState, SupervisorAction) {
    if s != ChildState::Running {
        (s, SupervisorAction::Nothing)
    } else {
        match poll {
            PollResult::StillRunning => (ChildState::Running, SupervisorAction::Nothing),
            PollResult::Exited(_) => (ChildState::Exited, SupervisorAction::Respawn),
            PollResult::PollFailed => (ChildState::Running, SupervisorAction::Fatal),
        }
    }
}

/// One managed process: how to launch it, and its current PID and state.
pub struct ManagedChild {
    /// The executable.
    pub program: String,
    /// Its arguments.
    pub args: Vec<String>,
    /// The PID of the last spawn; zero before the first.
    pub pid: u32,
    /// Where it stands in its life cycle.
    pub state: ChildState,
    /// How many times it was restarted (the count stops at its maximum).
    pub restarts: u64,
}

impl ManagedChild {
    /// A child that is not started yet.
    pub fn new(program: String, args: Vec<String>) -> (r: ManagedChild)
        ensures
            r.program == program,
            r.args == args,
            r.pid == 0,
            r.state == ChildState::NotStarted,
            r.restarts == 0,
    {
        ManagedChild { program, args, pid: 0, state: ChildState::NotStarted, restarts: 0 }
    }

    /// Marks the child as being spawned.
    pub fn start(&mut self)
        requires
            old(self).state == ChildState::NotStarted,
        ensures
            final(self).state == ChildState::Starting,
            final(self).pid == old(self).pid,
            final(self).restarts == old(self).restarts,
            final(self).program == old(self).program,
            final(self).args == old(self).args,
    {
        self.state = ChildState::Starting;
    }

    /// Records the PID of a spawn that succeeded; the child then runs.
    pub fn record_spawn(&mut self, pid: u32)
        requires
            old(self).state == ChildState::Starting || old(self).state == ChildState::Restarting,
        ensures
            final(self).state == ChildState::Running,
            final(self).pid == pid,
            final(self).restarts == old(self).restarts,
            final(self).program == old(self).program,
            final(self).args == old(self).args,
    {
        self.pid = pid;
        self.state = ChildState::Running;
    }

    /// One health check of a running child. An exited child is to be
    /// respawned at once; a failed poll ends the supervision; any other
    /// state than running asks for nothing.
    pub fn health_check(&mut self, poll: PollResult) -> (r: SupervisorAction)
        ensures
            (final(self).state, r) == health_spec(old(self).state, poll),
            old(self).state == ChildState::Running && poll is Exited ==> final(self).restarts == if old(
                self,
            ).restarts < u64::MAX {
                old(self).restarts + 1
            } else {
                old(self).restarts as int
            },
            !(old(self).state == ChildState::Running && poll is Exited) ==> final(self).restarts == old(self).restarts,
            final(self).pid == old(self).pid,
            final(self).program == old(self).program,
            final(self).args == old(self).args,
    {
        if self.state != ChildState::Running {
            return SupervisorAction::Nothing;
        }
        match poll {
            PollResult::StillRunning => SupervisorAction::Nothing,
            PollResult::Exited(_) => {
                self.state = ChildState::Exited;
                if self.restarts < u64::MAX {
                    self.restarts = self.restarts + 1;
                }
                SupervisorAction::Respawn
            },
            PollResult::PollFailed => SupervisorAction::Fatal,
        }
    }

    /// The text of the child's PID file: its PID in decimal.
    pub fn pid_file_text(&self) -> (r: String)
        ensures
            r@ == decimal_spec(self.pid as nat),
    {
        decimal(self.pid as u64)
    }

    /// Marks an exited child as being respawned.
    pub fn begin_restart(&mut self)
        requires
            old(self).state == ChildState::Exited,
        ensures
            final(self).state == ChildState::Restarting,
            final(self).pid == old(self).pid,
            final(self).restarts == old(self).restarts,
            final(self).program == old(self).program,
            final(self).args == old(self).args,
    {
        self.state = ChildState::Restarting;
    }

    /// Stops the supervision of this child, returning the PID to terminate;
    /// `None` when there is nothing left to terminate (never spawned, or
    /// already stopped), so that no PID is terminated twice.
    pub fn stop(&mut self) -> (r: Option<u32>)
        ensures
            final(self).state == ChildState::Stopped,
            final(self).pid == old(self).pid,
            (old(self).state == ChildState::Stopped || old(self).state == ChildState::NotStarted) ==> r is None,
            !(old(self).state == ChildState::Stopped || old(self).state == ChildState::NotStarted) ==> r
                == Some(old(self).pid),
    {
        let was = self.state;
        self.state = ChildState::Stopped;
        if was == ChildState::Stopped || was == ChildState::NotStarted {
            None
        } else {
            Some(self.pid)
        }
    }
}

/// A running child that has exited is, within one health check, found
/// exited and to be respawned; once the new PID is recorded, the PID file text
/// (its decimal notation) differs from the one before whenever the new PID
/// differs from the previous one.
pub proof fn lemma_restart_rewrites_pid_file(code: i32, old_pid: u32, new_pid: u32)
    requires
        old_pid != new_pid,
    ensures
        health_spec(ChildState::Running, PollResult::Exited(code)) == (
            ChildState::Exited,
            SupervisorAction::Respawn,
        ),
        decimal_spec(new_pid as nat) != decimal_spec(old_pid as nat),
{
    lemma_decimal(new_pid as nat);
    lemma_decimal(old_pid as nat);
}

} // verus!
