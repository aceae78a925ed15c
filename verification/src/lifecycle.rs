//! The server's lifecycle and the decisions of its accept loop.
//!
//! The whole server shares one boolean flag between the accept loop and the
//! stop request; the process stores it atomically, but every transition of
//! its value, and every decision the accept loop takes, is decided here.

use vstd::prelude::*;

verus! {

/// The value of the server's shared lifecycle flag.
pub struct Lifecycle {
    pub running: bool,
}

/// The flag's value after a stop request, whatever it held before.
pub open spec fn spec_stopped(s: Lifecycle) -> Lifecycle {
    Lifecycle { running: false }
}

impl Lifecycle {
    /// A newly constructed server is not yet running.
    pub fn new() -> (s: Self)
        ensures
            !s.running,
    {
        Lifecycle { running: false }
    }

    /// Entering the accept loop marks the server running.
    pub fn start(&mut self)
        ensures
            final(self).running,
    {
        self.running = true;
    }

    /// A stop request. It reports whether it actually signalled a running
    /// server; stopping one that is already stopped changes nothing and is
    /// only worth a log line, never an error.
    pub fn stop(&mut self) -> (signalled: bool)
        ensures
            *final(self) == spec_stopped(*old(self)),
            signalled == old(self).running,
    {
        let was = self.running;
        self.running = false;
        was
    }

    /// The accept loop polls the flag before each round and continues exactly
    /// while it is set; once a stop request lands, the next poll ends `run`.
    pub fn should_continue(&self) -> (c: bool)
        ensures
            c == self.running,
    {
        self.running
    }
}

/// Law: stopping is idempotent. One stop request leaves the server stopped,
/// and a second one finds nothing to change.
pub proof fn lemma_stop_idempotent(s: Lifecycle)
    ensures
        !spec_stopped(s).running,
        spec_stopped(spec_stopped(s)) == spec_stopped(s),
{
}

/// One observation of the listening socket.
pub enum AcceptEvent {
    /// A new connection was accepted.
    Connection,
    /// No connection is pending.
    NotReady,
    /// Accepting failed.
    Failed,
}

/// What the accept loop does with one observation.
pub enum AcceptAction {
    /// Hand the new connection to its own handler and poll again at once:
    /// accepting one connection never delays accepting the next.
    SpawnHandler,
    /// Sleep briefly before polling again, staying responsive to a stop.
    Pause,
    /// Note the error and keep accepting: accept errors are transient.
    LogAndContinue,
}

/// Decides one round of the accept loop. No observation ends the loop: only
/// the lifecycle flag does.
pub fn accept_step(evt: &AcceptEvent) -> (a: AcceptAction)
    ensures
        a is SpawnHandler <==> evt is Connection,
        a is Pause <==> evt is NotReady,
        a is LogAndContinue <==> evt is Failed,
{
    match evt {
        AcceptEvent::Connection => AcceptAction::SpawnHandler,
        AcceptEvent::NotReady => AcceptAction::Pause,
        AcceptEvent::Failed => AcceptAction::LogAndContinue,
    }
}

} // verus!
