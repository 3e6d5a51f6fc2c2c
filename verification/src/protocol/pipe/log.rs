//! The access log of a pipe.
use vstd::prelude::*;
use vstd::string::*;

use crate::address::SocketAddress;
use crate::proxy::Tags;
use crate::session::{Protocol, SessionMetrics, TransportProtocol};
use crate::text::{decimal_text, join_text};

use super::steps::AccessError;
use super::{append_or_dash, Pipe, PipeModel};

verus! {

impl AccessError {
    /// The error in words.
    pub open spec fn text(self) -> Seq<char> {
        match self {
            AccessError::FrontRead => "front socket read error"@,
            AccessError::FrontWrite => "front socket write error"@,
            AccessError::BackRead => "back socket read error"@,
            AccessError::BackWrite => "back socket write error"@,
            AccessError::FrontTimeout => "front socket timeout"@,
            AccessError::BackTimeout => "back socket timeout"@,
            AccessError::InvalidToken => "invalid token timeout"@,
        }
    }

    /// The error in words.
    pub fn message(&self) -> (r: &'static str)
        ensures
            r@ == self.text(),
    {
        match self {
            AccessError::FrontRead => "front socket read error",
            AccessError::FrontWrite => "front socket write error",
            AccessError::BackRead => "back socket read error",
            AccessError::BackWrite => "back socket write error",
            AccessError::FrontTimeout => "front socket timeout",
            AccessError::BackTimeout => "back socket timeout",
            AccessError::InvalidToken => "invalid token timeout",
        }
    }
}

/// What the access log needs besides the pipe itself.
#[derive(Debug, PartialEq, Eq)]
pub struct AccessContext {
    /// the address of the peer of the frontend socket
    pub frontend_peer: Option<SocketAddress>,
    /// the address of the peer of the backend socket
    pub backend_peer: Option<SocketAddress>,
    pub transport: TransportProtocol,
    /// how long the response took, as it is to be shown
    pub response_time: String,
    /// how long the proxy worked on the request, as it is to be shown
    pub service_time: String,
}

/// An address as text, or a dash where there is none.
pub open spec fn address_or_dash(address: Option<SocketAddress>) -> Seq<char> {
    match address {
        Some(address) => address.text(),
        None => "-"@,
    }
}

/// A tag as text.
pub open spec fn tag_text(tag: (Seq<char>, Seq<char>)) -> Seq<char> {
    tag.0 + "="@ + tag.1
}

/// All tags as text.
pub open spec fn tags_text(tags: Seq<(Seq<char>, Seq<char>)>) -> Seq<char> {
    crate::text::joined(Seq::new(tags.len(), |i: int| tag_text(tags[i])), ", "@)
}

impl PipeModel {
    /// Whether the protocol has a name in the access log.
    pub open spec fn has_protocol_name(self, transport: TransportProtocol) -> bool {
        match self.protocol {
            Protocol::TCP => true,
            Protocol::HTTP => true,
            Protocol::HTTPS => transport != TransportProtocol::Tcp,
            _ => false,
        }
    }

    /// The name of the protocol in the access log.
    pub open spec fn protocol_name(self, transport: TransportProtocol) -> Seq<char> {
        match self.protocol {
            Protocol::TCP => "TCP"@,
            Protocol::HTTP => "WS"@,
            _ => match transport {
                TransportProtocol::Ssl2 => "WSS-SSL2"@,
                TransportProtocol::Ssl3 => "WSS-SSL3"@,
                TransportProtocol::Tls1_0 => "WSS-TLS1.0"@,
                TransportProtocol::Tls1_1 => "WSS-TLS1.1"@,
                TransportProtocol::Tls1_2 => "WSS-TLS1.2"@,
                _ => "WSS-TLS1.3"@,
            },
        }
    }

    /// What every line of the access log starts with: the request, the addresses of both peers, the
    /// two durations and the bytes that were received and sent.
    pub open spec fn access_start(self, metrics: SessionMetrics, context: AccessContext) -> Seq<
        char,
    > {
        let session = match self.session_address {
            Some(address) => Some(address),
            None => context.frontend_peer,
        };
        let backend = if self.backend {
            context.backend_peer
        } else {
            None
        };
        self.log_ctx + address_or_dash(session) + " -> "@ + address_or_dash(backend) + "\t"@
            + context.response_time@ + " "@ + context.service_time@ + " "@ + crate::text::decimal(
            metrics.bin as nat,
        ) + " "@ + crate::text::decimal(metrics.bout as nat) + "\t"@
    }

    /// The line for a session that ended well.
    pub open spec fn success_line(
        self,
        metrics: SessionMetrics,
        context: AccessContext,
        tags: Option<Seq<(Seq<char>, Seq<char>)>>,
    ) -> Seq<char> {
        self.access_start(metrics, context) + match tags {
            Some(tags) => tags_text(tags),
            None => "-"@,
        } + "\t"@ + self.protocol_name(context.transport) + " "@ + super::or_dash(
            self.websocket_context,
        )
    }

    /// The line for a session that ended because of an error.
    pub open spec fn error_line(
        self,
        metrics: SessionMetrics,
        context: AccessContext,
        message: Seq<char>,
    ) -> Seq<char> {
        self.access_start(metrics, context) + self.protocol_name(context.transport) + " "@
            + super::or_dash(self.websocket_context) + " | "@ + message
    }
}

fn append_address(line: &mut String, address: Option<SocketAddress>)
    ensures
        final(line)@ == old(line)@ + address_or_dash(address),
{
    match address {
        Some(address) => {
            line.append(address.to_text().as_str());
        },
        None => {
            line.append("-");
        },
    }
}

/// All tags as text.
fn text_of_tags(tags: &Tags) -> (r: String)
    ensures
        r@ == tags_text(tags.deep_view()),
{
    let ghost all = tags.deep_view();
    let mut parts: Vec<String> = Vec::new();
    let n = tags.len();
    let mut i: usize = 0;
    while i < n
        invariant
            i <= n,
            n == tags.entries().len(),
            all == tags.deep_view(),
            all.len() == n,
            parts.len() == i,
            forall|k: int| 0 <= k < i ==> (#[trigger] parts@[k])@ == tag_text(all[k]),
        decreases n - i,
    {
        let entry = tags.entry(i);
        let mut part = entry.0.clone();
        part.append("=");
        part.append(entry.1.as_str());
        parts.push(part);
        i = i + 1;
    }
    proof {
        assert(parts.deep_view() =~= Seq::new(all.len(), |i: int| tag_text(all[i])));
    }
    join_text(&parts, ", ")
}

impl Pipe {
    /// The name of the protocol in the access log.
    pub fn protocol_string(&self, transport: TransportProtocol) -> (r: &'static str)
        requires
            self@.has_protocol_name(transport),
        ensures
            r@ == self@.protocol_name(transport),
    {
        match self.protocol {
            Protocol::TCP => "TCP",
            Protocol::HTTP => "WS",
            _ => match transport {
                TransportProtocol::Ssl2 => "WSS-SSL2",
                TransportProtocol::Ssl3 => "WSS-SSL3",
                TransportProtocol::Tls1_0 => "WSS-TLS1.0",
                TransportProtocol::Tls1_1 => "WSS-TLS1.1",
                TransportProtocol::Tls1_2 => "WSS-TLS1.2",
                _ => "WSS-TLS1.3",
            },
        }
    }

    fn start_of_access(&self, metrics: &SessionMetrics, context: &AccessContext) -> (r: String)
        ensures
            r@ == self@.access_start(*metrics, *context),
    {
        let mut line = self.log_ctx.clone();
        append_address(&mut line, self.get_session_address(context.frontend_peer));
        line.append(" -> ");
        append_address(&mut line, self.get_backend_address(context.backend_peer));
        line.append("\t");
        line.append(context.response_time.as_str());
        line.append(" ");
        line.append(context.service_time.as_str());
        line.append(" ");
        line.append(decimal_text(metrics.bin as u64).as_str());
        line.append(" ");
        line.append(decimal_text(metrics.bout as u64).as_str());
        line.append("\t");
        line
    }

    /// The line of the access log for a session that ended well. `tags` are those of the listener.
    pub fn log_request_success(
        &self,
        metrics: &SessionMetrics,
        context: &AccessContext,
        tags: Option<&Tags>,
    ) -> (r: String)
        requires
            self@.has_protocol_name(context.transport),
        ensures
            r@ == self@.success_line(
                *metrics,
                *context,
                match tags {
                    Some(tags) => Some(tags.deep_view()),
                    None => None,
                },
            ),
    {
        let mut line = self.start_of_access(metrics, context);
        match tags {
            Some(tags) => {
                line.append(text_of_tags(tags).as_str());
            },
            None => {
                line.append("-");
            },
        }
        line.append("\t");
        line.append(self.protocol_string(context.transport));
        line.append(" ");
        append_or_dash(&mut line, &self.websocket_context);
        line
    }

    /// The line of the access log for a session that ended because of an error.
    pub fn log_request_error(
        &self,
        metrics: &SessionMetrics,
        context: &AccessContext,
        message: &str,
    ) -> (r: String)
        requires
            self@.has_protocol_name(context.transport),
        ensures
            r@ == self@.error_line(*metrics, *context, message@),
    {
        let mut line = self.start_of_access(metrics, context);
        line.append(self.protocol_string(context.transport));
        line.append(" ");
        append_or_dash(&mut line, &self.websocket_context);
        line.append(" | ");
        line.append(message);
        line
    }
}

/// What a line of the access log says of the two peers.
pub open spec fn is_peer(text: Seq<char>, address: Option<SocketAddress>) -> bool {
    match address {
        Some(address) => text == address.text(),
        None => text == "-"@,
    }
}

/// A line of the access log says who spoke to whom, for how long, and how many bytes came from the
/// client and went to it: the client by the address that the session has, or else by that of its
/// socket, and the backend by that of its socket, where there is one. A session that ended well is
/// shown with its tags, one that did not with the reason, and both with their protocol.
pub proof fn law_access_lines_tell_of_the_session(
    pipe: PipeModel,
    metrics: SessionMetrics,
    context: AccessContext,
    tags: Option<Seq<(Seq<char>, Seq<char>)>>,
    message: Seq<char>,
    client: Seq<char>,
    backend: Seq<char>,
    protocol: Seq<char>,
    websocket: Seq<char>,
)
    requires
        pipe.session_address is Some ==> is_peer(client, pipe.session_address),
        pipe.session_address is None ==> is_peer(client, context.frontend_peer),
        pipe.backend ==> is_peer(backend, context.backend_peer),
        !pipe.backend ==> backend == "-"@,
        pipe.protocol == Protocol::TCP ==> protocol == "TCP"@,
        pipe.protocol == Protocol::HTTP ==> protocol == "WS"@,
        pipe.protocol == Protocol::HTTPS || pipe.protocol == Protocol::HTTP || pipe.protocol
            == Protocol::TCP,
        pipe.protocol == Protocol::HTTPS ==> match context.transport {
            TransportProtocol::Tcp => false,
            TransportProtocol::Ssl2 => protocol == "WSS-SSL2"@,
            TransportProtocol::Ssl3 => protocol == "WSS-SSL3"@,
            TransportProtocol::Tls1_0 => protocol == "WSS-TLS1.0"@,
            TransportProtocol::Tls1_1 => protocol == "WSS-TLS1.1"@,
            TransportProtocol::Tls1_2 => protocol == "WSS-TLS1.2"@,
            TransportProtocol::Tls1_3 => protocol == "WSS-TLS1.3"@,
        },
        pipe.websocket_context matches Some(text) ==> websocket == text,
        pipe.websocket_context is None ==> websocket == "-"@,
    ensures
        ({
            let start = pipe.log_ctx + client + " -> "@ + backend + "\t"@ + context.response_time@
                + " "@ + context.service_time@ + " "@ + crate::text::decimal(metrics.bin as nat)
                + " "@ + crate::text::decimal(metrics.bout as nat) + "\t"@;
            let end = protocol + " "@ + websocket;
            &&& pipe.success_line(metrics, context, tags) == start + (match tags {
                Some(tags) => tags_text(tags),
                None => "-"@,
            }) + "\t"@ + end
            &&& pipe.error_line(metrics, context, message) == start + end + " | "@ + message
        }),
{
    let start = pipe.access_start(metrics, context);
    let end = protocol + " "@ + websocket;
    let shown = match tags {
        Some(tags) => tags_text(tags),
        None => "-"@,
    };
    assert(pipe.success_line(metrics, context, tags) =~= start + shown + "\t"@ + end);
    assert(pipe.error_line(metrics, context, message) =~= start + end + " | "@ + message);
}

/// Every tag is shown as its name and its value, in their order.
pub proof fn law_all_tags_are_shown(
    tags: Seq<(Seq<char>, Seq<char>)>,
    name: Seq<char>,
    value: Seq<char>,
)
    ensures
        tags.len() == 0 ==> tags_text(tags).len() == 0,
        tags.len() == 0 ==> tags_text(tags.push((name, value))) == name + "="@ + value,
        tags.len() > 0 ==> tags_text(tags.push((name, value))) == tags_text(tags) + ", "@ + name
            + "="@ + value,
{
    let more = tags.push((name, value));
    let parts = Seq::new(tags.len(), |i: int| tag_text(tags[i]));
    let all = Seq::new(more.len(), |i: int| tag_text(more[i]));
    assert(all.drop_last() =~= parts);
    assert(all.last() == name + "="@ + value);
    if tags.len() > 0 {
        assert(tags_text(more) =~= tags_text(tags) + ", "@ + name + "="@ + value);
    }
}

} // verus!
