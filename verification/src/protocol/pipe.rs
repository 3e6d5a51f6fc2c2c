//! Forwards bytes between a frontend socket and a backend socket.
use vstd::prelude::*;
use vstd::string::*;

use crate::address::SocketAddress;
use crate::buffer::{Buffer, BufferModel};
use crate::ready::{Readiness, Ready, Token};
use crate::session::{LogContext, Protocol, SessionState, TimeoutContainer, TimerOrder};
use crate::ulid::ulid_to_text;

pub mod laws;
pub mod liveness;
pub mod log;
pub mod outcomes;
pub mod rounds;
pub mod steps;
pub mod turn;

verus! {

/// Whether the session has an answer of its own to send.
#[derive(Debug, Clone, Copy, PartialEq, Eq, Structural)]
pub enum SessionStatus {
    Normal,
    DefaultAnswer,
}

/// What can still be done with a socket.
#[derive(Debug, Clone, Copy, PartialEq, Eq, Structural)]
pub enum ConnectionStatus {
    Normal,
    /// the peer sends and does not receive any more
    ReadOpen,
    /// the peer receives and does not send any more
    WriteOpen,
    Closed,
}

impl ConnectionStatus {
    /// The status after the peer stopped to send.
    pub open spec fn without_reading(self) -> ConnectionStatus {
        match self {
            ConnectionStatus::Normal => ConnectionStatus::WriteOpen,
            ConnectionStatus::ReadOpen => ConnectionStatus::Closed,
            other => other,
        }
    }

    /// The status after the peer stopped to receive.
    pub open spec fn without_writing(self) -> ConnectionStatus {
        match self {
            ConnectionStatus::Normal => ConnectionStatus::ReadOpen,
            ConnectionStatus::WriteOpen => ConnectionStatus::Closed,
            other => other,
        }
    }

    /// The peer can still receive.
    pub open spec fn receives(self) -> bool {
        self == ConnectionStatus::Normal || self == ConnectionStatus::WriteOpen
    }

    fn stop_reading(self) -> (r: ConnectionStatus)
        ensures
            r == self.without_reading(),
    {
        match self {
            ConnectionStatus::Normal => ConnectionStatus::WriteOpen,
            ConnectionStatus::ReadOpen => ConnectionStatus::Closed,
            other => other,
        }
    }

    fn stop_writing(self) -> (r: ConnectionStatus)
        ensures
            r == self.without_writing(),
    {
        match self {
            ConnectionStatus::Normal => ConnectionStatus::ReadOpen,
            ConnectionStatus::WriteOpen => ConnectionStatus::Closed,
            other => other,
        }
    }
}

/// What a [`Pipe`] holds.
#[verifier::ext_equal]
pub struct PipeModel {
    pub backend_buffer: BufferModel,
    pub backend_id: Option<Seq<char>>,
    pub backend_readiness: Readiness,
    pub backend_status: ConnectionStatus,
    pub backend_timeout: Option<TimeoutContainer>,
    pub backend_token: Option<Token>,
    pub backend: bool,
    pub cluster_id: Option<Seq<char>>,
    pub frontend_buffer: BufferModel,
    pub frontend_readiness: Readiness,
    pub frontend_status: ConnectionStatus,
    pub frontend_timeout: Option<TimeoutContainer>,
    pub frontend_token: Token,
    pub log_ctx: Seq<char>,
    pub protocol: Protocol,
    pub request_id: u128,
    pub session_address: Option<SocketAddress>,
    pub websocket_context: Option<Seq<char>>,
}

/// Forwards what the frontend sends to the backend and what the backend sends to the frontend. The
/// sockets themselves belong to the event loop, which reads and writes as the pipe asks for.
#[derive(Debug)]
pub struct Pipe {
    /// what came from the backend and has to be sent to the frontend
    backend_buffer: Buffer,
    backend_id: Option<String>,
    pub backend_readiness: Readiness,
    backend_status: ConnectionStatus,
    pub backend_timeout: Option<TimeoutContainer>,
    backend_token: Option<Token>,
    /// there is a backend socket
    backend: bool,
    cluster_id: Option<String>,
    /// what came from the frontend and has to be sent to the backend
    frontend_buffer: Buffer,
    pub frontend_readiness: Readiness,
    frontend_status: ConnectionStatus,
    pub frontend_timeout: Option<TimeoutContainer>,
    frontend_token: Token,
    log_ctx: String,
    protocol: Protocol,
    request_id: u128,
    session_address: Option<SocketAddress>,
    websocket_context: Option<String>,
}

impl View for Pipe {
    type V = PipeModel;

    closed spec fn view(&self) -> PipeModel {
        PipeModel {
            backend_buffer: self.backend_buffer@,
            backend_id: self.backend_id.deep_view(),
            backend_readiness: self.backend_readiness,
            backend_status: self.backend_status,
            backend_timeout: self.backend_timeout,
            backend_token: self.backend_token,
            backend: self.backend,
            cluster_id: self.cluster_id.deep_view(),
            frontend_buffer: self.frontend_buffer@,
            frontend_readiness: self.frontend_readiness,
            frontend_status: self.frontend_status,
            frontend_timeout: self.frontend_timeout,
            frontend_token: self.frontend_token,
            log_ctx: self.log_ctx@,
            protocol: self.protocol,
            request_id: self.request_id,
            session_address: self.session_address,
            websocket_context: self.websocket_context.deep_view(),
        }
    }
}

/// The text, or a dash where there is none.
pub open spec fn or_dash(text: Option<Seq<char>>) -> Seq<char> {
    match text {
        Some(text) => text,
        None => "-"@,
    }
}

/// How the lines of the log about a request start.
pub open spec fn log_start(
    request_id: u128,
    cluster_id: Option<Seq<char>>,
    backend_id: Option<Seq<char>>,
) -> Seq<char> {
    crate::ulid::ulid_text(request_id) + " "@ + or_dash(cluster_id) + " "@ + or_dash(backend_id)
        + "\t"@
}

/// Appends the text, or a dash where there is none.
pub(crate) fn append_or_dash(line: &mut String, text: &Option<String>)
    ensures
        final(line)@ == old(line)@ + or_dash(text.deep_view()),
{
    match text {
        Some(text) => {
            line.append(text.as_str());
        },
        None => {
            line.append("-");
        },
    }
}

fn start_of_log(request_id: u128, cluster_id: &Option<String>, backend_id: &Option<String>) -> (r:
    String)
    ensures
        r@ == log_start(request_id, cluster_id.deep_view(), backend_id.deep_view()),
{
    let mut line = ulid_to_text(request_id);
    line.append(" ");
    append_or_dash(&mut line, cluster_id);
    line.append(" ");
    append_or_dash(&mut line, backend_id);
    line.append("\t");
    line
}

impl PipeModel {
    /// A pipe of which nothing is known yet but its parts.
    pub open spec fn fresh(
        frontend_token: Token,
        request_id: u128,
        cluster_id: Option<Seq<char>>,
        backend_id: Option<Seq<char>>,
        websocket_context: Option<Seq<char>>,
        backend: bool,
        front_buf: BufferModel,
        back_buf: BufferModel,
        session_address: Option<SocketAddress>,
        protocol: Protocol,
    ) -> PipeModel {
        let readiness = Readiness { interest: Ready::every(), event: Ready::none() };
        PipeModel {
            backend_buffer: back_buf,
            backend_id,
            backend_readiness: readiness,
            backend_status: if backend {
                ConnectionStatus::Normal
            } else {
                ConnectionStatus::Closed
            },
            backend_timeout: None,
            backend_token: None,
            backend,
            cluster_id,
            frontend_buffer: front_buf,
            frontend_readiness: readiness,
            frontend_status: ConnectionStatus::Normal,
            frontend_timeout: None,
            frontend_token,
            log_ctx: log_start(request_id, cluster_id, backend_id),
            protocol,
            request_id,
            session_address,
            websocket_context,
        }
    }

    /// The pipe whose lines of the log start as its identifiers say.
    pub open spec fn with_log_context(self) -> PipeModel {
        PipeModel {
            log_ctx: log_start(self.request_id, self.cluster_id, self.backend_id),
            ..self
        }
    }

    /// Both timers get the order, where there are any.
    pub open spec fn with_timeouts(self, order: TimerOrder) -> PipeModel {
        let ordered = |timeout: Option<TimeoutContainer>|
            match timeout {
                Some(_) => Some(TimeoutContainer { order }),
                None => None,
            };
        PipeModel {
            frontend_timeout: ordered(self.frontend_timeout),
            backend_timeout: ordered(self.backend_timeout),
            ..self
        }
    }

    /// Whether the session goes on. It does as long as both peers send, or as long as there is data
    /// that a peer can still receive. A peer that does not send any more is taken for gone where the
    /// other one has nothing to read and no data is on its way, as happens after a response whose
    /// end is the end of the connection.
    pub open spec fn goes_on(self) -> bool {
        let to_backend = self.frontend_buffer.data.len() > 0;
        let to_frontend = self.backend_buffer.data.len() > 0;
        match (self.frontend_status, self.backend_status) {
            (ConnectionStatus::Normal, ConnectionStatus::WriteOpen) =>
            self.frontend_readiness.event.readable || to_backend || to_frontend,
            (ConnectionStatus::WriteOpen, ConnectionStatus::Normal) =>
            self.backend_readiness.event.readable || to_backend || to_frontend,
            (ConnectionStatus::WriteOpen, ConnectionStatus::WriteOpen) => to_backend || to_frontend,
            (ConnectionStatus::Normal, ConnectionStatus::Closed) => to_frontend,
            (ConnectionStatus::WriteOpen, ConnectionStatus::Closed) => to_frontend,
            (ConnectionStatus::Closed, ConnectionStatus::Normal) => to_backend,
            (ConnectionStatus::Closed, ConnectionStatus::WriteOpen) => to_backend,
            (ConnectionStatus::ReadOpen, ConnectionStatus::ReadOpen) => false,
            (ConnectionStatus::ReadOpen, ConnectionStatus::Closed) => false,
            (ConnectionStatus::Closed, ConnectionStatus::ReadOpen) => false,
            (ConnectionStatus::Closed, ConnectionStatus::Closed) => false,
            _ => true,
        }
    }

    /// The tokens of the sockets.
    pub open spec fn tokens(self) -> Seq<Token> {
        match self.backend_token {
            Some(token) => seq![self.frontend_token, token],
            None => seq![self.frontend_token],
        }
    }

    /// The events of a token are added to those of its socket.
    pub open spec fn with_events(self, token: Token, events: Ready) -> PipeModel {
        if self.frontend_token == token {
            PipeModel {
                frontend_readiness: Readiness {
                    event: self.frontend_readiness.event.joined(events),
                    ..self.frontend_readiness
                },
                ..self
            }
        } else if self.backend_token == Some(token) {
            PipeModel {
                backend_readiness: Readiness {
                    event: self.backend_readiness.event.joined(events),
                    ..self.backend_readiness
                },
                ..self
            }
        } else {
            self
        }
    }
}

/// Data that its receiver can still take keeps a session open.
pub proof fn law_deliverable_data_keeps_the_session_open(pipe: PipeModel)
    ensures
        pipe.backend_buffer.data.len() > 0 && pipe.frontend_status.receives() ==> pipe.goes_on(),
        pipe.frontend_buffer.data.len() > 0 && pipe.backend_status.receives() ==> pipe.goes_on(),
{
}

/// A session goes on while both peers send and receive. Once a peer is gone it ends as soon as no
/// data is on its way, and at once where both are gone.
pub proof fn law_session_ends_with_its_peers(pipe: PipeModel)
    ensures
        pipe.frontend_status == ConnectionStatus::Normal && pipe.backend_status
            == ConnectionStatus::Normal ==> pipe.goes_on(),
        pipe.frontend_status == ConnectionStatus::Closed && pipe.backend_status
            == ConnectionStatus::Closed ==> !pipe.goes_on(),
        pipe.frontend_buffer.data.len() == 0 && pipe.backend_buffer.data.len() == 0 && (
        pipe.frontend_status == ConnectionStatus::Closed || pipe.backend_status
            == ConnectionStatus::Closed) ==> !pipe.goes_on(),
{
}

impl Pipe {
    /// A pipe between a frontend and, where `backend` says so, a backend.
    pub fn new(
        frontend_token: Token,
        request_id: u128,
        cluster_id: Option<String>,
        backend_id: Option<String>,
        websocket_context: Option<String>,
        backend: bool,
        front_buf: Buffer,
        back_buf: Buffer,
        session_address: Option<SocketAddress>,
        protocol: Protocol,
    ) -> (r: Pipe)
        ensures
            r@ == PipeModel::fresh(
                frontend_token,
                request_id,
                cluster_id.deep_view(),
                backend_id.deep_view(),
                websocket_context.deep_view(),
                backend,
                front_buf@,
                back_buf@,
                session_address,
                protocol,
            ),
    {
        let log_ctx = start_of_log(request_id, &cluster_id, &backend_id);
        let backend_status = if backend {
            ConnectionStatus::Normal
        } else {
            ConnectionStatus::Closed
        };
        Pipe {
            backend_buffer: back_buf,
            backend_id,
            backend_readiness: Readiness { interest: Ready::all(), event: Ready::empty() },
            backend_status,
            backend_timeout: None,
            backend_token: None,
            backend,
            cluster_id,
            frontend_buffer: front_buf,
            frontend_readiness: Readiness { interest: Ready::all(), event: Ready::empty() },
            frontend_status: ConnectionStatus::Normal,
            frontend_timeout: None,
            frontend_token,
            log_ctx,
            protocol,
            request_id,
            session_address,
            websocket_context,
        }
    }

    /// The tokens of the frontend and of the backend, where both are known.
    pub fn both_tokens(&self) -> (r: Option<(Token, Token)>)
        ensures
            r == match self@.backend_token {
                Some(back) => Some((self@.frontend_token, back)),
                None => None,
            },
    {
        match self.backend_token {
            Some(back) => Some((self.frontend_token, back)),
            None => None,
        }
    }

    /// A backend socket was connected.
    pub fn set_back_socket(&mut self)
        ensures
            final(self)@ == (PipeModel {
                backend: true,
                backend_status: ConnectionStatus::Normal,
                ..old(self)@
            }),
    {
        self.backend = true;
        self.backend_status = ConnectionStatus::Normal;
    }

    /// Whether there is a backend socket.
    pub fn has_back_socket(&self) -> (r: bool)
        ensures
            r == self@.backend,
    {
        self.backend
    }

    /// The token of the backend, where it is known.
    pub fn back_token(&self) -> (r: Vec<Token>)
        ensures
            r@ == match self@.backend_token {
                Some(back) => seq![back],
                None => Seq::empty(),
            },
    {
        let mut r: Vec<Token> = Vec::new();
        match self.backend_token {
            Some(back) => {
                r.push(back);
            },
            None => {},
        }
        proof {
            assert(r@ =~= match self@.backend_token {
                Some(back) => seq![back],
                None => Seq::empty(),
            });
        }
        r
    }

    /// Stops both timers.
    pub fn cancel_timeouts(&mut self)
        ensures
            final(self)@ == old(self)@.with_timeouts(TimerOrder::Cancel),
    {
        if let Some(timeout) = &mut self.frontend_timeout {
            timeout.cancel();
        }
        if let Some(timeout) = &mut self.backend_timeout {
            timeout.cancel();
        }
    }

    /// Starts both timers anew.
    fn reset_timeouts(&mut self)
        ensures
            final(self)@ == old(self)@.with_timeouts(TimerOrder::Reset),
    {
        if let Some(timeout) = &mut self.frontend_timeout {
            timeout.reset();
        }
        if let Some(timeout) = &mut self.backend_timeout {
            timeout.reset();
        }
    }

    pub fn set_cluster_id(&mut self, cluster_id: Option<String>)
        ensures
            final(self)@ == (PipeModel {
                cluster_id: cluster_id.deep_view(),
                ..old(self)@
            }).with_log_context(),
    {
        self.cluster_id = cluster_id;
        self.reset_log_context();
    }

    pub fn set_backend_id(&mut self, backend_id: Option<String>)
        ensures
            final(self)@ == (PipeModel {
                backend_id: backend_id.deep_view(),
                ..old(self)@
            }).with_log_context(),
    {
        self.backend_id = backend_id;
        self.reset_log_context();
    }

    /// Lets the lines of the log start as the identifiers say.
    pub fn reset_log_context(&mut self)
        ensures
            final(self)@ == old(self)@.with_log_context(),
    {
        self.log_ctx = start_of_log(self.request_id, &self.cluster_id, &self.backend_id);
    }

    pub fn set_back_token(&mut self, token: Token)
        ensures
            final(self)@ == (PipeModel { backend_token: Some(token), ..old(self)@ }),
    {
        self.backend_token = Some(token);
    }

    /// Sets the events of the frontend that are not dealt with yet.
    pub fn set_front_events(&mut self, events: Ready)
        ensures
            final(self)@ == (PipeModel {
                frontend_readiness: Readiness {
                    event: events,
                    ..old(self)@.frontend_readiness
                },
                ..old(self)@
            }),
    {
        self.frontend_readiness.event = events;
    }

    /// The readiness of the frontend.
    pub fn front_readiness(&mut self) -> (r: &mut Readiness)
        ensures
            *r == old(self)@.frontend_readiness,
            final(self)@ == (PipeModel { frontend_readiness: *final(r), ..old(self)@ }),
    {
        &mut self.frontend_readiness
    }

    /// The readiness of the backend.
    pub fn back_readiness(&mut self) -> (r: &mut Readiness)
        ensures
            *r == old(self)@.backend_readiness,
            final(self)@ == (PipeModel { backend_readiness: *final(r), ..old(self)@ }),
    {
        &mut self.backend_readiness
    }

    /// What has to be sent to the frontend.
    pub fn data_for_frontend(&self) -> (r: &Vec<u8>)
        ensures
            r@ == self@.backend_buffer.data,
    {
        self.backend_buffer.data()
    }

    /// What has to be sent to the backend.
    pub fn data_for_backend(&self) -> (r: &Vec<u8>)
        ensures
            r@ == self@.frontend_buffer.data,
    {
        self.frontend_buffer.data()
    }

    /// The address of the client: the one that is known of the session, or else the one of the
    /// frontend socket.
    pub fn get_session_address(&self, peer: Option<SocketAddress>) -> (r: Option<SocketAddress>)
        ensures
            r == match self@.session_address {
                Some(address) => Some(address),
                None => peer,
            },
    {
        match self.session_address {
            Some(address) => Some(address),
            None => peer,
        }
    }

    /// The address of the backend: the one of the backend socket, where there is one.
    pub fn get_backend_address(&self, peer: Option<SocketAddress>) -> (r: Option<SocketAddress>)
        ensures
            r == if self@.backend {
                peer
            } else {
                None
            },
    {
        if self.backend {
            peer
        } else {
            None
        }
    }

    /// Whether the session goes on.
    pub fn check_connections(&self) -> (r: bool)
        ensures
            r == self@.goes_on(),
    {
        let to_backend = self.frontend_buffer.available_data() > 0;
        let to_frontend = self.backend_buffer.available_data() > 0;
        match (self.frontend_status, self.backend_status) {
            (ConnectionStatus::Normal, ConnectionStatus::WriteOpen) => {
                self.frontend_readiness.event.readable || to_backend || to_frontend
            },
            (ConnectionStatus::Normal, ConnectionStatus::Closed) => to_frontend,
            (ConnectionStatus::WriteOpen, ConnectionStatus::Normal) => {
                self.backend_readiness.event.readable || to_frontend || to_backend
            },
            (ConnectionStatus::WriteOpen, ConnectionStatus::WriteOpen) => to_backend || to_frontend,
            (ConnectionStatus::WriteOpen, ConnectionStatus::Closed) => to_frontend,
            (ConnectionStatus::ReadOpen, ConnectionStatus::ReadOpen) => false,
            (ConnectionStatus::ReadOpen, ConnectionStatus::Closed) => false,
            (ConnectionStatus::Closed, ConnectionStatus::Normal) => to_backend,
            (ConnectionStatus::Closed, ConnectionStatus::ReadOpen) => false,
            (ConnectionStatus::Closed, ConnectionStatus::WriteOpen) => to_backend,
            (ConnectionStatus::Closed, ConnectionStatus::Closed) => false,
            _ => true,
        }
    }

    pub fn log_context(&self) -> (r: LogContext)
        ensures
            r.request_id == self@.request_id,
            r.cluster_id.deep_view() == self@.cluster_id,
            r.backend_id.deep_view() == self@.backend_id,
    {
        LogContext {
            request_id: self.request_id,
            cluster_id: self.cluster_id.clone(),
            backend_id: self.backend_id.clone(),
        }
    }

    /// Whether the session counts as an active websocket.
    pub fn is_websocket(&self) -> (r: bool)
        ensures
            r == (self@.protocol != Protocol::TCP),
    {
        match self.protocol {
            Protocol::TCP => false,
            _ => true,
        }
    }

    /// Takes note of the events of a token.
    pub fn process_events(&mut self, token: Token, events: Ready)
        ensures
            final(self)@ == old(self)@.with_events(token, events),
            !old(self)@.tokens().contains(token) ==> *final(self) == *old(self),
    {
        proof {
            let tokens = self@.tokens();
            assert(tokens[0] == self.frontend_token);
            if self.backend_token is Some {
                assert(tokens[1] == self.backend_token->0);
            }
        }
        if self.frontend_token == token {
            self.frontend_readiness.event = self.frontend_readiness.event.union(events);
        } else if self.backend_token == Some(token) {
            self.backend_readiness.event = self.backend_readiness.event.union(events);
        }
    }
}

impl SessionState for Pipe {
    open spec fn session_tokens(&self) -> Seq<Token> {
        self@.tokens()
    }

    open spec fn events(&self, token: Token) -> Ready {
        if self@.frontend_token == token {
            self@.frontend_readiness.event
        } else if self@.backend_token == Some(token) {
            self@.backend_readiness.event
        } else {
            Ready::none()
        }
    }

    fn update_readiness(&mut self, token: Token, events: Ready) {
        self.process_events(token, events);
    }

    fn tokens(&self) -> (r: Vec<Token>) {
        let mut r: Vec<Token> = Vec::new();
        r.push(self.frontend_token);
        match self.backend_token {
            Some(back) => {
                r.push(back);
            },
            None => {},
        }
        proof {
            assert(r@ =~= self@.tokens());
        }
        r
    }
}

} // verus!
