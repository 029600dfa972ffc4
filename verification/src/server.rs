//! The server's lifecycle and its accept-loop decisions.
//!
//! A server instance moves `Created -> Running -> Stopped` and never
//! leaves `Stopped`: the shared running flag is set by `start`, cleared by
//! `stop`, and once cleared it never returns to true for the lifetime of
//! the instance (`start` demands a freshly created server). Shutdown is
//! cooperative: `stop` only clears the flag, and the accept loop and every
//! connection worker observe it on their next iteration.
//!
//! The surrounding binary owns the listening socket and the threads; it
//! mirrors the flag in an atomic boolean, polls `accept`, and asks
//! `accept_decision` what to do with each outcome.

use vstd::prelude::*;

verus! {

/// How long the accept loop pauses when nothing is ready to accept, in
/// milliseconds. Shutdown is therefore observed within one such interval.
pub const ACCEPT_RETRY_MILLIS: u64 = 100;

/// Where a server instance stands in its life.
#[derive(PartialEq, Eq, Structural, Clone, Copy, Debug)]
pub enum ServerPhase {
    /// Built, not yet run.
    Created,
    /// The running flag holds: connections are accepted and served.
    Running,
    /// The flag is cleared, for good: terminal.
    Stopped,
}

/// The lifecycle state of one server instance.
#[derive(Clone, Copy, Debug)]
pub struct ServerCore {
    pub phase: ServerPhase,
}

impl ServerCore {
    /// A fresh instance, not yet running.
    pub fn new() -> (s: ServerCore)
        ensures
            s.phase is Created,
    {
        ServerCore { phase: ServerPhase::Created }
    }

    /// The value of the shared running flag in this phase.
    pub open spec fn running(self) -> bool {
        self.phase is Running
    }

    /// Reads the running flag.
    pub fn is_running(&self) -> (r: bool)
        ensures
            r == self.running(),
    {
        matches!(self.phase, ServerPhase::Running)
    }

    /// Sets the running flag: the first step of serving. Running a server
    /// again after it stopped is left undefined, so a fresh instance is
    /// demanded.
    pub fn start(&mut self)
        requires
            old(self).phase is Created,
        ensures
            final(self).phase is Running,
    {
        self.phase = ServerPhase::Running;
    }

    /// Signals cooperative shutdown, idempotently: a running server's flag
    /// is cleared, never to be set again; on a server already stopped or
    /// never run this changes nothing, and the result says which happened
    /// (`true`: the signal was sent and is to be logged; `false`: a no-op
    /// to be logged as a warning). In-flight connections are not touched:
    /// their workers observe the flag on their own cadence.
    pub fn stop(&mut self) -> (was_running: bool)
        ensures
            was_running == old(self).running(),
            old(self).running() ==> final(self).phase is Stopped,
            !old(self).running() ==> final(self).phase == old(self).phase,
            !final(self).running(),
    {
        if matches!(self.phase, ServerPhase::Running) {
            self.phase = ServerPhase::Stopped;
            true
        } else {
            false
        }
    }
}

/// What one poll of the listener produced.
pub enum AcceptEvent {
    /// A connection was accepted.
    Connection,
    /// Nothing was ready to accept.
    NothingReady,
    /// The accept failed with some other error; not fatal.
    Failed,
}

/// What the accept loop does next.
pub enum AcceptAction {
    /// Log the peer and spawn an independent handler for the connection;
    /// do not wait for it.
    SpawnHandler,
    /// Pause for `ACCEPT_RETRY_MILLIS`, then poll again.
    PauseAndRetry,
    /// Log the error and keep accepting.
    LogAndContinue,
    /// Leave the loop and return success: the server has stopped.
    ExitLoop,
}

/// Decides one step of the accept loop from the running flag and the
/// poll's outcome. Once the flag is cleared the loop exits whatever the
/// poll produced, so no connection is accepted after shutdown; while it
/// holds, a connection is handed to a new handler, an idle poll is
/// retried after the fixed pause, and any other accept error is logged
/// and survived.
pub fn accept_decision(running: bool, ev: &AcceptEvent) -> (act: AcceptAction)
    ensures
        !running ==> act is ExitLoop,
        running && ev is Connection ==> act is SpawnHandler,
        running && ev is NothingReady ==> act is PauseAndRetry,
        running && ev is Failed ==> act is LogAndContinue,
{
    if !running {
        AcceptAction::ExitLoop
    } else {
        match ev {
            AcceptEvent::Connection => AcceptAction::SpawnHandler,
            AcceptEvent::NothingReady => AcceptAction::PauseAndRetry,
            AcceptEvent::Failed => AcceptAction::LogAndContinue,
        }
    }
}

} // verus!
