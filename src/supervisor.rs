use vstd::prelude::*;
use crate::text::{decimal, joined_text, with_decimal};

verus! {

pub const STARTED_PREFIX: &'static str = "Game server started on port ";

pub const ALREADY_RUNNING_PREFIX: &'static str = "Game server already running on port ";

pub const START_FAILED_PREFIX: &'static str = "Failed to start server: ";

pub const STOPPED: &'static str = "Game server stopped";

pub const NOTHING_RUNNING: &'static str = "No server running";

pub const STOP_FAILED_PREFIX: &'static str = "Failed to stop server: ";

/// Whether a server is accepting connections, and on which port.
#[derive(Clone, Copy, Debug, PartialEq, Eq, Structural)]
pub enum ServerState {
    Stopped,
    Running { port: u16 },
}

/// The server's lifecycle. The caller binds the listening socket, runs the
/// accept loop and sends the shutdown signal; this decides when each of those
/// happens and what the operator is told.
#[derive(Clone, Copy, Debug)]
pub struct Supervisor {
    pub state: ServerState,
}

/// What `begin_start` answers in state `s`.
pub open spec fn start_check(s: ServerState) -> Result<(), Seq<char>> {
    match s {
        ServerState::Stopped => Ok(()),
        ServerState::Running { port } => Err(ALREADY_RUNNING_PREFIX@ + decimal(port as nat)),
    }
}

/// The state after a bind on `port` ended with `bound`.
pub open spec fn state_after_bind(port: u16, bound: Result<(), String>) -> ServerState {
    match bound {
        Ok(()) => ServerState::Running { port },
        Err(_) => ServerState::Stopped,
    }
}

/// What the operator is told after a bind on `port` ended with `bound`.
pub open spec fn start_report(port: u16, bound: Result<(), String>) -> Result<Seq<char>, Seq<char>> {
    match bound {
        Ok(()) => Ok(STARTED_PREFIX@ + decimal(port as nat)),
        Err(e) => Err(START_FAILED_PREFIX@ + e@),
    }
}

/// What the operator is told after a stop: `signalled` is the outcome of the
/// shutdown signal, `None` where no server was running.
pub open spec fn stop_report(signalled: Option<Result<(), String>>) -> Result<Seq<char>, Seq<char>> {
    match signalled {
        None => Ok(NOTHING_RUNNING@),
        Some(Ok(())) => Ok(STOPPED@),
        Some(Err(e)) => Err(STOP_FAILED_PREFIX@ + e@),
    }
}

pub open spec fn text_result(r: Result<String, String>) -> Result<Seq<char>, Seq<char>> {
    match r {
        Ok(s) => Ok(s@),
        Err(e) => Err(e@),
    }
}

impl Supervisor {
    pub fn new() -> (r: Supervisor)
        ensures
            r.state == ServerState::Stopped,
    {
        Supervisor { state: ServerState::Stopped }
    }

    pub fn is_running(&self) -> (r: bool)
        ensures
            r == (self.state is Running),
    {
        match self.state {
            ServerState::Running { .. } => true,
            ServerState::Stopped => false,
        }
    }

    /// Whether a bind may be attempted: only one server runs at a time, so a
    /// start while one runs is refused with a description.
    pub fn begin_start(&self) -> (r: Result<(), String>)
        ensures
            match (r, start_check(self.state)) {
                (Ok(()), Ok(())) => true,
                (Err(e), Err(t)) => e@ == t,
                _ => false,
            },
    {
        match self.state {
            ServerState::Stopped => Ok(()),
            ServerState::Running { port } => Err(with_decimal(ALREADY_RUNNING_PREFIX, port as u64)),
        }
    }

    /// Records the outcome of a bind on `port` and reports it. After a failed
    /// bind the server is not running, so no accept loop is left behind.
    pub fn finish_start(&mut self, port: u16, bound: Result<(), String>) -> (r: Result<String, String>)
        requires
            old(self).state == ServerState::Stopped,
        ensures
            final(self).state == state_after_bind(port, bound),
            text_result(r) == start_report(port, bound),
    {
        match bound {
            Ok(()) => {
                self.state = ServerState::Running { port };
                Ok(with_decimal(STARTED_PREFIX, port as u64))
            },
            Err(e) => Err(joined_text(START_FAILED_PREFIX, &e)),
        }
    }

    /// Marks the server stopped; returns whether a shutdown signal is owed to
    /// a running accept loop.
    pub fn stop(&mut self) -> (r: bool)
        ensures
            r == (old(self).state is Running),
            final(self).state == ServerState::Stopped,
    {
        let r = self.is_running();
        self.state = ServerState::Stopped;
        r
    }

    /// The status of a stop, from the outcome of the shutdown signal (`None`
    /// where none was owed).
    pub fn stop_status(signalled: Option<Result<(), String>>) -> (r: Result<String, String>)
        ensures
            text_result(r) == stop_report(signalled),
    {
        match signalled {
            None => Ok(String::from_str(NOTHING_RUNNING)),
            Some(Ok(())) => Ok(String::from_str(STOPPED)),
            Some(Err(e)) => Err(joined_text(STOP_FAILED_PREFIX, &e)),
        }
    }
}

/// Stopping a server that was never started (so `stop` owes no shutdown
/// signal) reports, without error, that nothing was running; a start whose bind fails
/// is an error and leaves the server stopped, with no accept loop; a start
/// while a server runs is refused.
pub proof fn lemma_lifecycle_failures(port: u16, e: String, running: u16)
    ensures
        stop_report(None) == Ok::<Seq<char>, Seq<char>>(NOTHING_RUNNING@),
        state_after_bind(port, Err(e)) == ServerState::Stopped,
        start_report(port, Err(e)) is Err,
        start_check(ServerState::Running { port: running }) is Err,
{
}

} // verus!
