//! What sessions, their sockets and their timers have in common.
use vstd::prelude::*;
use vstd::string::*;

use crate::ready::{Ready, Token};

verus! {

/// What a socket says about a read or a write.
#[derive(Debug, Clone, Copy, PartialEq, Eq, Structural)]
pub enum SocketResult {
    Continue,
    Closed,
    WouldBlock,
    Error,
}

/// What becomes of a session after a step.
#[derive(Debug, Clone, Copy, PartialEq, Eq, Structural)]
pub enum SessionResult {
    CloseSession,
    Continue,
}

/// What becomes of the protocol state of a session.
#[derive(Debug, Clone, Copy, PartialEq, Eq, Structural)]
pub enum ProtocolResult {
    Upgrade,
    Continue,
    Close,
}

/// What a session is for.
#[derive(Debug, Clone, Copy, PartialEq, Eq, Structural)]
pub enum Protocol {
    HTTP,
    HTTPS,
    TCP,
    HTTPListen,
    HTTPSListen,
    TCPListen,
    Channel,
    Metrics,
    Timer,
}

/// What the frontend socket speaks below the protocol of the session.
#[derive(Debug, Clone, Copy, PartialEq, Eq, Structural)]
pub enum TransportProtocol {
    Tcp,
    Ssl2,
    Ssl3,
    Tls1_0,
    Tls1_1,
    Tls1_2,
    Tls1_3,
}

/// Counts the bytes of a session.
#[derive(Debug, Clone, Copy, PartialEq, Eq, Structural)]
pub struct SessionMetrics {
    /// bytes received from the frontend
    pub bin: usize,
    /// bytes sent to the frontend
    pub bout: usize,
    /// bytes received from the backend
    pub backend_bin: usize,
    /// bytes sent to the backend
    pub backend_bout: usize,
    /// the session does no more work
    pub service_stopped: bool,
}

impl SessionMetrics {
    pub fn new() -> (r: SessionMetrics)
        ensures
            r == (SessionMetrics {
                bin: 0,
                bout: 0,
                backend_bin: 0,
                backend_bout: 0,
                service_stopped: false,
            }),
    {
        SessionMetrics { bin: 0, bout: 0, backend_bin: 0, backend_bout: 0, service_stopped: false }
    }

    pub fn service_stop(&mut self)
        ensures
            *final(self) == (SessionMetrics { service_stopped: true, ..*old(self) }),
    {
        self.service_stopped = true;
    }
}

/// What has to be done with a timer.
#[derive(Debug, Clone, Copy, PartialEq, Eq, Structural)]
pub enum TimerOrder {
    Keep,
    Reset,
    Cancel,
    Forget,
}

/// The timer of a socket. The event loop carries out the last order.
#[derive(Debug, Clone, Copy, PartialEq, Eq, Structural)]
pub struct TimeoutContainer {
    pub order: TimerOrder,
}

impl TimeoutContainer {
    /// Starts the timer anew.
    pub fn reset(&mut self)
        ensures
            *final(self) == (TimeoutContainer { order: TimerOrder::Reset }),
    {
        self.order = TimerOrder::Reset;
    }

    /// Stops the timer.
    pub fn cancel(&mut self)
        ensures
            *final(self) == (TimeoutContainer { order: TimerOrder::Cancel }),
    {
        self.order = TimerOrder::Cancel;
    }

    /// The timer went off: there is nothing left to stop.
    pub fn triggered(&mut self)
        ensures
            *final(self) == (TimeoutContainer { order: TimerOrder::Forget }),
    {
        self.order = TimerOrder::Forget;
    }
}

/// Says which request a line of the log is about.
#[derive(Debug, PartialEq, Eq)]
pub struct LogContext {
    pub request_id: u128,
    pub cluster_id: Option<String>,
    pub backend_id: Option<String>,
}

/// The state of a session that depends on its protocol.
pub trait SessionState: Sized {
    /// The tokens of the sockets of the session, the one of the frontend first.
    spec fn session_tokens(&self) -> Seq<Token>;

    /// The events of the socket with this token that are not dealt with yet.
    spec fn events(&self, token: Token) -> Ready;

    /// Takes note of the events that the event loop reports for a token of the session.
    fn update_readiness(&mut self, token: Token, events: Ready)
        ensures
            old(self).session_tokens().contains(token) ==> final(self).events(token) == old(
                self,
            ).events(token).joined(events),
            !old(self).session_tokens().contains(token) ==> *final(self) == *old(self),
            final(self).session_tokens() == old(self).session_tokens(),
            forall|other: Token|
                other != token ==> #[trigger] final(self).events(other) == old(self).events(other),
    ;

    /// Lists the tokens of the sockets of the session.
    fn tokens(&self) -> (r: Vec<Token>)
        ensures
            r@ == self.session_tokens(),
    ;

    /// Tells the state to shut down if possible.
    fn shutting_down(&mut self) -> (r: ProtocolResult)
        ensures
            r == ProtocolResult::Close,
            *final(self) == *old(self),
    {
        ProtocolResult::Close
    }
}

} // verus!
