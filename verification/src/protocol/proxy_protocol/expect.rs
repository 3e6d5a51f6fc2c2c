//! Waits for the header of the proxy protocol at the start of a connection.
use vstd::prelude::*;
use vstd::string::*;

use crate::address::SocketAddress;
use crate::buffer::{Buffer, BufferModel};
use crate::protocol::pipe::{Pipe, PipeModel};
use crate::ready::{Readiness, Ready, Token};
use crate::session::{
    LogContext, Protocol, ProtocolResult, SessionMetrics, SessionState, SocketResult,
};

use super::header::{HeaderV2Model, ProxyAddr, ProxyAddrModel};
use super::parser::{parse_v2_header, Parsed, ParsedModel};

verus! {

/// How long the header may be, as far as is known.
#[derive(Debug, Clone, Copy, PartialEq, Eq, Structural)]
pub enum HeaderLen {
    V4,
    V6,
    Unix,
}

/// The longest header that can be taken.
pub const MAX_HEADER: usize = 232;

/// How often a turn goes through the socket at most.
pub const MAX_ROUNDS: u32 = 100000;

impl HeaderLen {
    /// How many bytes are read at most: exactly a header with addresses of this kind.
    pub open spec fn bytes(self) -> nat {
        match self {
            HeaderLen::V4 => 28,
            HeaderLen::V6 => 52,
            HeaderLen::Unix => 232,
        }
    }

    /// The next kind, once a header of this kind turned out to be too short.
    pub open spec fn longer(self) -> HeaderLen {
        match self {
            HeaderLen::V4 => HeaderLen::V6,
            _ => HeaderLen::Unix,
        }
    }

    fn total(&self) -> (r: usize)
        ensures
            r == self.bytes(),
    {
        match self {
            HeaderLen::V4 => 28,
            HeaderLen::V6 => 52,
            HeaderLen::Unix => 232,
        }
    }
}

/// Waits for a header. The socket belongs to the event loop, which reads as it is asked to.
#[derive(Debug)]
pub struct ExpectProxyProtocol {
    /// the addresses of the header, once it is there
    pub addresses: Option<ProxyAddr>,
    received: Vec<u8>,
    pub frontend_readiness: Readiness,
    pub frontend_token: Token,
    header_len: HeaderLen,
    pub request_id: u128,
}

/// What an [`ExpectProxyProtocol`] holds.
#[verifier::ext_equal]
pub struct ExpectModel {
    pub addresses: Option<ProxyAddrModel>,
    pub received: Seq<u8>,
    pub frontend_readiness: Readiness,
    pub frontend_token: Token,
    pub header_len: HeaderLen,
    pub request_id: u128,
}

impl View for ExpectProxyProtocol {
    type V = ExpectModel;

    closed spec fn view(&self) -> ExpectModel {
        ExpectModel {
            addresses: match self.addresses {
                Some(addresses) => Some(addresses@),
                None => None,
            },
            received: self.received@,
            frontend_readiness: self.frontend_readiness,
            frontend_token: self.frontend_token,
            header_len: self.header_len,
            request_id: self.request_id,
        }
    }
}

/// What came of reading.
#[derive(Debug, Clone, Copy, PartialEq, Eq, Structural)]
pub struct ExpectReport {
    pub result: ProtocolResult,
    /// counts as an error of the proxy protocol
    pub error: bool,
}

impl ExpectModel {
    pub open spec fn fresh(frontend_token: Token, request_id: u128) -> ExpectModel {
        ExpectModel {
            addresses: None,
            received: Seq::empty(),
            frontend_readiness: Readiness {
                interest: Ready { readable: true, ..Ready::none() },
                event: Ready::none(),
            },
            frontend_token,
            header_len: HeaderLen::V4,
            request_id,
        }
    }

    /// How many bytes may be read next.
    pub open spec fn room(self) -> int {
        self.header_len.bytes() - self.received.len()
    }

    /// Nothing beyond the allowed length was received.
    pub open spec fn wf(self) -> bool {
        self.room() >= 0
    }

    /// After bytes came in, before they are looked at. No byte means that nothing is left to read.
    pub open spec fn with_bytes(self, bytes: Seq<u8>, res: SocketResult) -> ExpectModel {
        let received = self.received + bytes;
        let readiness = if bytes.len() == 0 || res == SocketResult::WouldBlock {
            self.frontend_readiness.without_event(Ready { readable: true, ..Ready::none() })
        } else {
            self.frontend_readiness
        };
        ExpectModel {
            received,
            frontend_readiness: if bytes.len() > 0 && received.len() == MAX_HEADER {
                readiness.without_interest(Ready { readable: true, ..Ready::none() })
            } else {
                readiness
            },
            ..self
        }
    }

    /// The state without any event or interest.
    pub open spec fn at_rest(self) -> ExpectModel {
        ExpectModel { frontend_readiness: Readiness::nothing(), ..self }
    }

    /// What the bytes that are there lead to.
    pub open spec fn looked_at(self, metrics: SessionMetrics) -> (
        ExpectModel,
        SessionMetrics,
        ExpectReport,
    ) {
        match super::parser::parsed(self.received) {
            ParsedModel::Header(header, _) => (
                ExpectModel { addresses: Some(header.addr), ..self },
                metrics,
                ExpectReport { result: ProtocolResult::Upgrade, error: false },
            ),
            ParsedModel::Refused => (
                self.at_rest(),
                metrics.stopped(),
                ExpectReport { result: ProtocolResult::Close, error: true },
            ),
            ParsedModel::Incomplete => if self.room() > 0 {
                (self, metrics, ExpectReport { result: ProtocolResult::Continue, error: false })
            } else if self.header_len == HeaderLen::Unix {
                (
                    self.at_rest(),
                    metrics.stopped(),
                    ExpectReport { result: ProtocolResult::Continue, error: true },
                )
            } else {
                (
                    ExpectModel { header_len: self.header_len.longer(), ..self },
                    metrics,
                    ExpectReport { result: ProtocolResult::Continue, error: false },
                )
            },
        }
    }

    /// After a read from the frontend.
    pub open spec fn after_read(
        self,
        metrics: SessionMetrics,
        bytes: Seq<u8>,
        res: SocketResult,
    ) -> (ExpectModel, SessionMetrics, ExpectReport) {
        let state = self.with_bytes(bytes, res);
        let metrics = SessionMetrics { bin: (metrics.bin + bytes.len()) as usize, ..metrics };
        if res == SocketResult::Error {
            (
                state.at_rest(),
                metrics.stopped(),
                ExpectReport { result: ProtocolResult::Close, error: true },
            )
        } else {
            state.looked_at(metrics)
        }
    }

    /// The pipe that takes over once the header is there.
    pub open spec fn as_pipe(
        self,
        front_buf: BufferModel,
        back_buf: BufferModel,
        backend: bool,
        backend_token: Option<Token>,
        peer: Option<SocketAddress>,
    ) -> PipeModel {
        let pipe = PipeModel::fresh(
            self.frontend_token,
            self.request_id,
            None,
            None,
            None,
            backend,
            front_buf,
            back_buf,
            peer,
            Protocol::TCP,
        );
        PipeModel {
            frontend_readiness: Readiness {
                event: self.frontend_readiness.event,
                ..pipe.frontend_readiness
            },
            backend_token,
            ..pipe
        }
    }
}

impl ExpectProxyProtocol {
    /// Nothing was received yet.
    pub fn new(frontend_token: Token, request_id: u128) -> (r: ExpectProxyProtocol)
        ensures
            r@ == ExpectModel::fresh(frontend_token, request_id),
            r@.wf(),
    {
        let r = ExpectProxyProtocol {
            addresses: None,
            received: Vec::new(),
            frontend_readiness: Readiness { interest: Ready::readable(), event: Ready::empty() },
            frontend_token,
            header_len: HeaderLen::V4,
            request_id,
        };
        proof {
            assert(r@ =~= ExpectModel::fresh(frontend_token, request_id));
        }
        r
    }

    /// How many bytes may be read next.
    pub fn room(&self) -> (r: usize)
        requires
            self@.wf(),
        ensures
            r == self@.room(),
    {
        self.header_len.total() - self.received.len()
    }

    fn take_bytes(&mut self, bytes: &Vec<u8>, res: SocketResult)
        requires
            old(self)@.wf(),
            bytes@.len() <= old(self)@.room(),
        ensures
            final(self)@ == old(self)@.with_bytes(bytes@, res),
    {
        let ghost before = self@;
        let mut more = bytes.clone();
        self.received.append(&mut more);
        if bytes.len() > 0 {
            if self.received.len() == MAX_HEADER {
                self.frontend_readiness = self.frontend_readiness.bored_by(Ready::readable());
            }
        } else {
            self.frontend_readiness = self.frontend_readiness.done_with(Ready::readable());
        }
        if res == SocketResult::WouldBlock {
            self.frontend_readiness = self.frontend_readiness.done_with(Ready::readable());
        }
        proof {
            assert(self@ =~= before.with_bytes(bytes@, res));
        }
    }

    /// Takes in what was read from the frontend and looks for the header.
    pub fn readable(&mut self, metrics: &mut SessionMetrics, bytes: Vec<u8>, res: SocketResult) -> (r:
        ExpectReport)
        requires
            old(self)@.wf(),
            bytes@.len() <= old(self)@.room(),
            old(metrics).bin + bytes@.len() <= usize::MAX,
        ensures
            (final(self)@, *final(metrics), r) == old(self)@.after_read(
                *old(metrics),
                bytes@,
                res,
            ),
            final(self)@.wf(),
    {
        self.take_bytes(&bytes, res);
        metrics.bin = metrics.bin + bytes.len();
        if res == SocketResult::Error {
            metrics.service_stop();
            self.frontend_readiness.reset();
            return ExpectReport { result: ProtocolResult::Close, error: true };
        }
        match parse_v2_header(&self.received) {
            Parsed::Header(header, _) => {
                self.addresses = Some(header.addr);
                ExpectReport { result: ProtocolResult::Upgrade, error: false }
            },
            Parsed::Incomplete => {
                match self.header_len {
                    HeaderLen::V4 => {
                        if self.received.len() == 28 {
                            self.header_len = HeaderLen::V6;
                        }
                    },
                    HeaderLen::V6 => {
                        if self.received.len() == 52 {
                            self.header_len = HeaderLen::Unix;
                        }
                    },
                    HeaderLen::Unix => {
                        if self.received.len() == 232 {
                            metrics.service_stop();
                            self.frontend_readiness.reset();
                            return ExpectReport { result: ProtocolResult::Continue, error: true };
                        }
                    },
                }
                ExpectReport { result: ProtocolResult::Continue, error: false }
            },
            Parsed::Refused => {
                metrics.service_stop();
                self.frontend_readiness.reset();
                ExpectReport { result: ProtocolResult::Close, error: true }
            },
        }
    }

    /// The readiness of the frontend.
    pub fn readiness(&mut self) -> (r: &mut Readiness)
        ensures
            *r == old(self)@.frontend_readiness,
            final(self)@ == (ExpectModel { frontend_readiness: *final(r), ..old(self)@ }),
    {
        &mut self.frontend_readiness
    }

    /// The pipe that takes over. `peer` is the address of the peer of the frontend socket.
    pub fn into_pipe(
        self,
        front_buf: Buffer,
        back_buf: Buffer,
        backend: bool,
        backend_token: Option<Token>,
        peer: Option<SocketAddress>,
    ) -> (r: Pipe)
        ensures
            r@ == self@.as_pipe(front_buf@, back_buf@, backend, backend_token, peer),
    {
        let mut pipe = Pipe::new(
            self.frontend_token,
            self.request_id,
            None,
            None,
            None,
            backend,
            front_buf,
            back_buf,
            peer,
            Protocol::TCP,
        );
        pipe.set_front_events(self.frontend_readiness.event);
        match backend_token {
            Some(token) => {
                pipe.set_back_token(token);
            },
            None => {},
        }
        pipe
    }

    pub fn log_context(&self) -> (r: LogContext)
        ensures
            r.request_id == self@.request_id,
            r.cluster_id is None,
            r.backend_id is None,
    {
        LogContext { request_id: self.request_id, cluster_id: None, backend_id: None }
    }
}

impl SessionState for ExpectProxyProtocol {
    open spec fn session_tokens(&self) -> Seq<Token> {
        seq![self@.frontend_token]
    }

    open spec fn events(&self, token: Token) -> Ready {
        if self@.frontend_token == token {
            self@.frontend_readiness.event
        } else {
            Ready::none()
        }
    }

    fn update_readiness(&mut self, token: Token, events: Ready) {
        proof {
            assert(self.session_tokens()[0] == self.frontend_token);
        }
        if self.frontend_token == token {
            self.frontend_readiness.event = self.frontend_readiness.event.union(events);
        }
    }

    fn tokens(&self) -> (r: Vec<Token>) {
        let mut r: Vec<Token> = Vec::new();
        r.push(self.frontend_token);
        proof {
            assert(r@ =~= self.session_tokens());
        }
        r
    }
}

/// How far a turn is.
#[derive(Debug, Clone, Copy, PartialEq, Eq, Structural)]
pub struct ExpectTurn {
    /// the rounds that are over
    pub counter: u32,
    /// what there was to do when the round began
    pub pending: Ready,
}

/// What the event loop tells.
#[derive(Debug)]
pub enum ExpectEvent {
    /// a new turn begins
    Start,
    /// bytes that were read, and what the socket said
    Read(Vec<u8>, SocketResult),
}

/// What is asked of the event loop.
#[derive(Debug, Clone, Copy, PartialEq, Eq, Structural)]
pub enum ExpectStep {
    /// read at most `room` bytes
    Read { room: usize },
    /// the turn is over
    Finished(ExpectReport),
}

/// The turn is over, and no error is counted.
pub open spec fn over(result: ProtocolResult) -> ExpectStep {
    ExpectStep::Finished(ExpectReport { result, error: false })
}

impl ExpectModel {
    /// A new round. What can be done is to read and to give up at an error. Where something else is
    /// reported it stays so until the rounds run out.
    pub open spec fn round(self, counter: u32) -> (ExpectModel, ExpectTurn, ExpectStep) {
        let pending = self.frontend_readiness.pending();
        let turn = ExpectTurn { counter, pending };
        if counter >= MAX_ROUNDS {
            (self, turn, over(ProtocolResult::Close))
        } else if pending == Ready::none() {
            (self, turn, over(ProtocolResult::Continue))
        } else if pending.readable {
            (self, turn, ExpectStep::Read { room: self.room() as usize })
        } else if pending.error {
            (self.uninterested(), turn, over(ProtocolResult::Close))
        } else {
            (self, ExpectTurn { counter: MAX_ROUNDS, pending }, over(ProtocolResult::Close))
        }
    }

    pub open spec fn uninterested(self) -> ExpectModel {
        ExpectModel {
            frontend_readiness: Readiness { interest: Ready::none(), ..self.frontend_readiness },
            ..self
        }
    }

    /// The turn from its start to the first thing that it needs.
    pub open spec fn started(self) -> (ExpectModel, ExpectTurn, ExpectStep) {
        if self.frontend_readiness.event.hup {
            (
                self,
                ExpectTurn { counter: 0, pending: Ready::none() },
                over(ProtocolResult::Close),
            )
        } else {
            self.round(0)
        }
    }

    /// The turn from a read to the next thing that it needs.
    pub open spec fn answered(
        self,
        turn: ExpectTurn,
        metrics: SessionMetrics,
        bytes: Seq<u8>,
        res: SocketResult,
    ) -> (ExpectModel, ExpectTurn, SessionMetrics, ExpectStep) {
        let (state, metrics, report) = self.after_read(metrics, bytes, res);
        if report.result != ProtocolResult::Continue {
            (state, turn, metrics, ExpectStep::Finished(report))
        } else if turn.pending.error {
            (
                state.uninterested(),
                turn,
                metrics,
                ExpectStep::Finished(ExpectReport { result: ProtocolResult::Close, ..report }),
            )
        } else {
            let (state, turn, step) = state.round((turn.counter + 1) as u32);
            (
                state,
                turn,
                metrics,
                match step {
                    ExpectStep::Finished(last) => ExpectStep::Finished(
                        ExpectReport { error: report.error, ..last },
                    ),
                    ask => ask,
                },
            )
        }
    }
}

impl ExpectTurn {
    /// Tells whether the rounds ran out: the session gets nowhere, and is given up.
    pub fn is_exhausted(&self) -> (r: bool)
        ensures
            r == (self.counter >= MAX_ROUNDS),
    {
        self.counter >= MAX_ROUNDS
    }
}

impl ExpectProxyProtocol {
    fn begin_round(&mut self, turn: &mut ExpectTurn) -> (r: ExpectStep)
        requires
            old(self)@.wf(),
        ensures
            (final(self)@, *final(turn), r) == old(self)@.round(old(turn).counter),
            final(self)@.wf(),
    {
        let pending = self.frontend_readiness.filter_interest();
        turn.pending = pending;
        if turn.counter >= MAX_ROUNDS {
            return ExpectStep::Finished(
                ExpectReport { result: ProtocolResult::Close, error: false },
            );
        }
        if pending.is_empty() {
            return ExpectStep::Finished(
                ExpectReport { result: ProtocolResult::Continue, error: false },
            );
        }
        if pending.readable {
            return ExpectStep::Read { room: self.room() };
        }
        if pending.error {
            self.frontend_readiness.interest = Ready::empty();
        } else {
            turn.counter = MAX_ROUNDS;
        }
        ExpectStep::Finished(ExpectReport { result: ProtocolResult::Close, error: false })
    }

    /// Goes on with a turn until it needs something of the event loop or is over. A turn begins with
    /// [`ExpectEvent::Start`], and a read is the answer to what the turn asked for.
    pub fn ready(&mut self, turn: &mut ExpectTurn, event: ExpectEvent, metrics: &mut SessionMetrics)
        -> (r: ExpectStep)
        requires
            old(self)@.wf(),
            event matches ExpectEvent::Read(bytes, _) ==> {
                &&& bytes@.len() <= old(self)@.room()
                &&& old(metrics).bin + bytes@.len() <= usize::MAX
                &&& old(turn).counter < MAX_ROUNDS
            },
        ensures
            final(self)@.wf(),
            match event {
                ExpectEvent::Start => {
                    &&& (final(self)@, *final(turn), r) == old(self)@.started()
                    &&& *final(metrics) == *old(metrics)
                },
                ExpectEvent::Read(bytes, res) => (
                    final(self)@,
                    *final(turn),
                    *final(metrics),
                    r,
                ) == old(self)@.answered(*old(turn), *old(metrics), bytes@, res),
            },
            r is Read ==> final(turn).counter < MAX_ROUNDS,
    {
        match event {
            ExpectEvent::Start => {
                *turn = ExpectTurn { counter: 0, pending: Ready::empty() };
                if self.frontend_readiness.event.hup {
                    return ExpectStep::Finished(
                        ExpectReport { result: ProtocolResult::Close, error: false },
                    );
                }
                self.begin_round(turn)
            },
            ExpectEvent::Read(bytes, res) => {
                let report = self.readable(metrics, bytes, res);
                if report.result != ProtocolResult::Continue {
                    return ExpectStep::Finished(report);
                }
                if turn.pending.error {
                    self.frontend_readiness.interest = Ready::empty();
                    return ExpectStep::Finished(
                        ExpectReport { result: ProtocolResult::Close, error: report.error },
                    );
                }
                turn.counter = turn.counter + 1;
                match self.begin_round(turn) {
                    ExpectStep::Finished(last) => ExpectStep::Finished(
                        ExpectReport { result: last.result, error: report.error },
                    ),
                    ask => ask,
                }
            },
        }
    }
}

/// A turn whose rounds ran out closes the session, and one that waits for a read has rounds left.
pub proof fn law_exhausted_turn_closes(
    state: ExpectModel,
    turn: ExpectTurn,
    metrics: SessionMetrics,
    bytes: Seq<u8>,
    res: SocketResult,
)
    requires
        turn.counter < MAX_ROUNDS,
    ensures
        ({
            let (_, after, step) = state.started();
            after.counter >= MAX_ROUNDS ==> step == over(ProtocolResult::Close)
        }),
        ({
            let (_, after, _, step) = state.answered(turn, metrics, bytes, res);
            after.counter >= MAX_ROUNDS ==> (step matches ExpectStep::Finished(report)
                && report.result == ProtocolResult::Close)
        }),
{
}

/// The state after several reads. Each brings the bytes of one chunk, with what the socket said.
pub open spec fn after_chunks(
    state: ExpectModel,
    metrics: SessionMetrics,
    chunks: Seq<(Seq<u8>, SocketResult)>,
) -> (ExpectModel, SessionMetrics, ExpectReport)
    decreases chunks.len(),
{
    if chunks.len() == 0 {
        (state, metrics, ExpectReport { result: ProtocolResult::Continue, error: false })
    } else {
        let (before, counted, _) = after_chunks(state, metrics, chunks.drop_last());
        before.after_read(counted, chunks.last().0, chunks.last().1)
    }
}

/// All bytes of the chunks.
pub open spec fn all_bytes(chunks: Seq<(Seq<u8>, SocketResult)>) -> Seq<u8>
    decreases chunks.len(),
{
    if chunks.len() == 0 {
        Seq::empty()
    } else {
        all_bytes(chunks.drop_last()) + chunks.last().0
    }
}

/// No chunk is larger than what may be read at its time.
pub open spec fn chunks_fit(
    state: ExpectModel,
    metrics: SessionMetrics,
    chunks: Seq<(Seq<u8>, SocketResult)>,
) -> bool
    decreases chunks.len(),
{
    chunks.len() == 0 || {
        &&& chunks_fit(state, metrics, chunks.drop_last())
        &&& chunks.last().0.len() <= after_chunks(state, metrics, chunks.drop_last()).0.room()
    }
}

/// A connection that starts with a header for IP or Unix addresses, whatever transport its family
/// byte names: however the bytes come in, and whether a read ends with more to come, with a socket
/// that would block or with one that was closed, none beyond the header is asked for, the state waits
/// as long as a byte of the header is missing, and takes the addresses as soon as the last one is
/// there. Only a socket error breaks this off.
pub proof fn law_exactly_the_header_is_read(
    header: HeaderV2Model,
    rest: Seq<u8>,
    token: Token,
    request_id: u128,
    metrics: SessionMetrics,
    chunks: Seq<(Seq<u8>, SocketResult)>,
)
    requires
        header.addr.wf(),
        header.addr !is AfUnspec,
        header.family / 16 == header.addr.family() / 16,
        forall|i: int| 0 <= i < chunks.len() ==> (#[trigger] chunks[i]).1 != SocketResult::Error,
        chunks_fit(ExpectModel::fresh(token, request_id), metrics, chunks),
        all_bytes(chunks).is_prefix_of(header.bytes() + rest),
        chunks.len() > 0 ==> all_bytes(chunks.drop_last()).len() < header.bytes().len(),
    ensures
        ({
            let (state, _, report) = after_chunks(
                ExpectModel::fresh(token, request_id),
                metrics,
                chunks,
            );
            &&& state.received == all_bytes(chunks)
            &&& state.received.len() <= header.bytes().len()
            &&& state.received.len() < header.bytes().len() ==> {
                &&& report.result == ProtocolResult::Continue
                &&& state.addresses is None
                &&& 0 < state.room() <= header.bytes().len() - state.received.len()
            }
            &&& state.received.len() == header.bytes().len() ==> {
                &&& report.result == ProtocolResult::Upgrade
                &&& state.addresses == Some(header.addr)
            }
        }),
    decreases chunks.len(),
{
    super::header::lemma_address_len(header.addr);
    let total = header.bytes().len();
    super::header::lemma_big_endian_len(header.addr.bytes().len(), 2);
    let fresh = ExpectModel::fresh(token, request_id);
    if chunks.len() > 0 {
        let first = chunks.drop_last();
        let came = all_bytes(first);
        assert(all_bytes(chunks).take(came.len() as int) =~= came);
        assert(came.is_prefix_of(header.bytes() + rest));
        if first.len() > 0 {
            assert(all_bytes(first.drop_last()).len() <= came.len());
        }
        law_exactly_the_header_is_read(header, rest, token, request_id, metrics, first);
        let (state, counted, _) = after_chunks(fresh, metrics, first);
        let now = all_bytes(chunks);
        assert(now.len() <= total);
        assert(now =~= header.bytes().take(now.len() as int));
        if now.len() == total {
            assert(now =~= header.bytes() + Seq::empty());
            super::parser::law_header_is_read_back(header, Seq::empty());
        } else {
            super::parser::law_header_needs_all_of_its_bytes(header, now.len() as int);
        }
    }
}

} // verus!
