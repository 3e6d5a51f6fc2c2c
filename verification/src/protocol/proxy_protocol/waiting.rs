//! How a connection gets from its start to its header, over whole turns.
use vstd::prelude::*;

use crate::ready::{Readiness, Ready, Token};
use crate::session::{ProtocolResult, SessionMetrics, SocketResult};

use super::expect::{ExpectModel, ExpectReport, ExpectStep, ExpectTurn, HeaderLen};
use super::header::HeaderV2Model;

verus! {

/// Something that happens while a header is waited for.
pub enum Happening {
    /// the event loop reports events
    Polled(Ready),
    /// a turn begins
    Started,
    /// what was asked for was read
    Answered(Seq<u8>, SocketResult),
}

/// A connection that waits for its header.
pub struct Waiting {
    pub state: ExpectModel,
    pub turn: ExpectTurn,
    pub metrics: SessionMetrics,
    /// what was said last, nothing before the first turn
    pub step: Option<ExpectStep>,
}

impl Waiting {
    pub open spec fn start(token: Token, request_id: u128, metrics: SessionMetrics) -> Waiting {
        Waiting {
            state: ExpectModel::fresh(token, request_id),
            turn: ExpectTurn { counter: 0, pending: Ready::none() },
            metrics,
            step: None,
        }
    }

    pub open spec fn after(self, happening: Happening) -> Waiting {
        match happening {
            Happening::Polled(events) => Waiting {
                state: ExpectModel {
                    frontend_readiness: Readiness {
                        event: self.state.frontend_readiness.event.joined(events),
                        ..self.state.frontend_readiness
                    },
                    ..self.state
                },
                ..self
            },
            Happening::Started => {
                let (state, turn, step) = self.state.started();
                Waiting { state, turn, step: Some(step), ..self }
            },
            Happening::Answered(bytes, res) => {
                let (state, turn, metrics, step) = self.state.answered(
                    self.turn,
                    self.metrics,
                    bytes,
                    res,
                );
                Waiting { state, turn, metrics, step: Some(step) }
            },
        }
    }

    pub open spec fn after_all(self, happenings: Seq<Happening>) -> Waiting
        decreases happenings.len(),
    {
        if happenings.len() == 0 {
            self
        } else {
            self.after_all(happenings.drop_last()).after(happenings.last())
        }
    }

    /// A turn begins only when the one before is over, a read answers what was asked for, the client
    /// does not hang up, and the socket does not fail.
    pub open spec fn expects(self, happening: Happening) -> bool {
        match happening {
            Happening::Polled(events) => !events.hup,
            Happening::Started => !(self.step matches Some(ExpectStep::Read { .. })),
            Happening::Answered(bytes, res) => {
                &&& self.step matches Some(ExpectStep::Read { room }) && bytes.len() <= room
                &&& res != SocketResult::Error
            },
        }
    }

    /// Everything comes as expected, and nothing after the last byte of a header of `total` bytes.
    pub open spec fn goes_through(self, happenings: Seq<Happening>, total: nat) -> bool
        decreases happenings.len(),
    {
        happenings.len() == 0 || {
            let first = happenings.drop_last();
            &&& self.goes_through(first, total)
            &&& self.after_all(first).expects(happenings.last())
            &&& sent(first).len() < total
        }
    }
}

/// All bytes that the client sent.
pub open spec fn sent(happenings: Seq<Happening>) -> Seq<u8>
    decreases happenings.len(),
{
    if happenings.len() == 0 {
        Seq::empty()
    } else {
        match happenings.last() {
            Happening::Answered(bytes, _) => sent(happenings.drop_last()) + bytes,
            _ => sent(happenings.drop_last()),
        }
    }
}

/// How many bytes a header of one of the three lengths has in all, if more than `n` are known to come.
pub open spec fn window(n: nat) -> nat {
    if n < 28 {
        28
    } else if n < 52 {
        52
    } else {
        232
    }
}

impl Waiting {
    /// `n` bytes of the header are there, and some are missing.
    spec fn waits(self, n: nat) -> bool {
        &&& self.state.addresses is None
        &&& self.state.received.len() == n < 232
        &&& self.state.header_len == (if n < 28 {
            HeaderLen::V4
        } else if n < 52 {
            HeaderLen::V6
        } else {
            HeaderLen::Unix
        })
        &&& self.state.frontend_readiness.interest == (Ready { readable: true, ..Ready::none() })
        &&& !self.state.frontend_readiness.event.hup
        &&& match self.step {
            None => true,
            Some(ExpectStep::Read { room }) => {
                &&& room == window(n) - n
                &&& self.state.frontend_readiness.event.readable
                &&& self.turn.counter <= n
                &&& !self.turn.pending.error
            },
            Some(ExpectStep::Finished(report)) => report == (ExpectReport {
                result: ProtocolResult::Continue,
                error: false,
            }),
        }
    }
}

/// One step of the way to the header.
proof fn lemma_one_happening(
    header: HeaderV2Model,
    rest: Seq<u8>,
    before: Waiting,
    happening: Happening,
)
    requires
        header.addr.wf(),
        header.family / 16 == header.addr.family() / 16,
        before.waits(before.state.received.len()),
        before.state.received.len() < header.bytes().len(),
        before.expects(happening),
        match happening {
            Happening::Answered(bytes, _) => (before.state.received + bytes).is_prefix_of(
                header.bytes() + rest,
            ),
            _ => true,
        },
    ensures
        ({
            let after = before.after(happening);
            let n = after.state.received.len();
            &&& after.state.received == match happening {
                Happening::Answered(bytes, _) => before.state.received + bytes,
                _ => before.state.received,
            }
            &&& n < header.bytes().len() ==> after.waits(n)
            &&& n >= header.bytes().len() ==> {
                &&& after.step == Some(
                    ExpectStep::Finished(
                        ExpectReport { result: ProtocolResult::Upgrade, error: false },
                    ),
                )
                &&& after.state.addresses == Some(header.addr)
            }
            &&& n < header.bytes().len() ==> match happening {
                Happening::Polled(_) => after.step == before.step,
                Happening::Started => after.step is Some && (after.step->0 is Read
                    <==> before.state.frontend_readiness.event.readable),
                Happening::Answered(bytes, res) => after.step is Some && (after.step->0 is Read
                    <==> bytes.len() > 0 && res != SocketResult::WouldBlock),
            }
        }),
{
    super::header::lemma_address_len(header.addr);
    super::header::lemma_big_endian_len(header.addr.bytes().len(), 2);
    let total = header.bytes().len();
    assert(total <= 232);
    match happening {
        Happening::Polled(_) => {},
        Happening::Started => {
            assert(before.state.frontend_readiness.pending().error == false);
        },
        Happening::Answered(bytes, res) => {
            let now = before.state.received + bytes;
            let all = header.bytes() + rest;
            if now.len() < total {
                assert(now =~= header.bytes().take(now.len() as int));
                super::parser::law_header_needs_all_of_its_bytes(header, now.len() as int);
            } else {
                let more = now.skip(total as int);
                assert(now =~= header.bytes() + more);
                super::parser::law_header_is_read_back(header, more);
            }
        },
    }
}

/// A connection that starts with a header of any address family is read as far as its header goes,
/// and no turn closes it on the way. However the bytes come in, and however many turns they take:
/// - a turn that begins while there is something to read asks for it, and one that reads on asks
///   again as long as the last read brought something and did not block; otherwise the turn ends and
///   the session goes on;
/// - what is asked for is what is missing of the shortest of the three lengths of headers that is
///   longer than what is there;
/// - with the last byte of the header the session is handed over, with the addresses of the header.
pub proof fn law_header_is_waited_for(
    header: HeaderV2Model,
    rest: Seq<u8>,
    token: Token,
    request_id: u128,
    metrics: SessionMetrics,
    happenings: Seq<Happening>,
)
    requires
        header.addr.wf(),
        header.family / 16 == header.addr.family() / 16,
        Waiting::start(token, request_id, metrics).goes_through(
            happenings,
            header.bytes().len(),
        ),
        sent(happenings).is_prefix_of(header.bytes() + rest),
    ensures
        ({
            let end = Waiting::start(token, request_id, metrics).after_all(happenings);
            let n = sent(happenings).len();
            &&& end.state.received == sent(happenings)
            &&& n >= header.bytes().len() ==> {
                &&& end.step == Some(
                    ExpectStep::Finished(
                        ExpectReport { result: ProtocolResult::Upgrade, error: false },
                    ),
                )
                &&& end.state.addresses == Some(header.addr)
            }
            &&& n < header.bytes().len() ==> {
                &&& end.state.addresses is None
                &&& match end.step {
                    None => true,
                    Some(ExpectStep::Read { room }) => room == window(n) - n,
                    Some(ExpectStep::Finished(report)) => report.result == ProtocolResult::Continue
                        && !report.error,
                }
                &&& happenings.len() > 0 ==> match happenings.last() {
                    Happening::Polled(_) => true,
                    Happening::Started => end.step is Some && (end.step->0 is Read
                        <==> Waiting::start(token, request_id, metrics).after_all(
                        happenings.drop_last(),
                    ).state.frontend_readiness.event.readable),
                    Happening::Answered(bytes, res) => end.step is Some && (end.step->0 is Read
                        <==> bytes.len() > 0 && res != SocketResult::WouldBlock),
                }
            }
        }),
{
    lemma_way_to_the_header(header, rest, token, request_id, metrics, happenings);
}

proof fn lemma_way_to_the_header(
    header: HeaderV2Model,
    rest: Seq<u8>,
    token: Token,
    request_id: u128,
    metrics: SessionMetrics,
    happenings: Seq<Happening>,
)
    requires
        header.addr.wf(),
        header.family / 16 == header.addr.family() / 16,
        Waiting::start(token, request_id, metrics).goes_through(
            happenings,
            header.bytes().len(),
        ),
        sent(happenings).is_prefix_of(header.bytes() + rest),
    ensures
        ({
            let start = Waiting::start(token, request_id, metrics);
            let end = start.after_all(happenings);
            let n = sent(happenings).len();
            &&& end.state.received == sent(happenings)
            &&& n < header.bytes().len() ==> end.waits(n)
            &&& n >= header.bytes().len() ==> {
                &&& end.step == Some(
                    ExpectStep::Finished(
                        ExpectReport { result: ProtocolResult::Upgrade, error: false },
                    ),
                )
                &&& end.state.addresses == Some(header.addr)
            }
            &&& n < header.bytes().len() && happenings.len() > 0 ==> match happenings.last() {
                Happening::Polled(_) => true,
                Happening::Started => end.step is Some && (end.step->0 is Read <==> start.after_all(
                    happenings.drop_last(),
                ).state.frontend_readiness.event.readable),
                Happening::Answered(bytes, res) => end.step is Some && (end.step->0 is Read
                    <==> bytes.len() > 0 && res != SocketResult::WouldBlock),
            }
        }),
    decreases happenings.len(),
{
    let start = Waiting::start(token, request_id, metrics);
    super::header::lemma_address_len(header.addr);
    super::header::lemma_big_endian_len(header.addr.bytes().len(), 2);
    if happenings.len() > 0 {
        let first = happenings.drop_last();
        assert(sent(happenings).take(sent(first).len() as int) =~= sent(first));
        assert(sent(first).is_prefix_of(header.bytes() + rest));
        lemma_way_to_the_header(header, rest, token, request_id, metrics, first);
        lemma_one_happening(header, rest, start.after_all(first), happenings.last());
    }
}

} // verus!
