//! What a pipe does with the bytes that go through it, and how its turns end.
use vstd::prelude::*;

use crate::ready::{Ready, Token};
use crate::session::{ProtocolResult, SessionMetrics, SocketResult};

use super::turn::{Progress, SocketEventModel, Stage, TurnState, MAX_ROUNDS};
use super::PipeModel;

verus! {

/// Something that happens to a pipe.
pub enum Happening {
    /// the event loop reports events of a token
    Polled(Token, Ready),
    /// the event loop starts a turn, or answers what the turn asked for
    Answered(SocketEventModel),
}

/// The first `n` bytes, or all of them where there are fewer.
pub open spec fn first(data: Seq<u8>, n: usize) -> Seq<u8> {
    if n <= data.len() {
        data.take(n as int)
    } else {
        data
    }
}

impl TurnState {
    /// What the frontend sent.
    pub open spec fn from_front(self, happening: Happening) -> Seq<u8> {
        match happening {
            Happening::Answered(SocketEventModel::Read(bytes, _)) => if self.turn.stage
                == Stage::FrontRead {
                bytes
            } else {
                Seq::empty()
            },
            _ => Seq::empty(),
        }
    }

    /// What the backend sent.
    pub open spec fn from_back(self, happening: Happening) -> Seq<u8> {
        match happening {
            Happening::Answered(SocketEventModel::Read(bytes, _)) => if self.turn.stage
                == Stage::BackRead {
                bytes
            } else {
                Seq::empty()
            },
            _ => Seq::empty(),
        }
    }

    /// What the backend received.
    pub open spec fn to_back(self, happening: Happening) -> Seq<u8> {
        match happening {
            Happening::Answered(SocketEventModel::Wrote(n, _)) => if self.turn.stage
                == Stage::BackWrite {
                first(self.pipe.frontend_buffer.data, n)
            } else {
                Seq::empty()
            },
            _ => Seq::empty(),
        }
    }

    /// What the frontend received.
    pub open spec fn to_front(self, happening: Happening) -> Seq<u8> {
        match happening {
            Happening::Answered(SocketEventModel::Wrote(n, _)) => if self.turn.stage
                == Stage::FrontWrite {
                first(self.pipe.backend_buffer.data, n)
            } else {
                Seq::empty()
            },
            _ => Seq::empty(),
        }
    }

    /// The pipe after something happened to it.
    pub open spec fn after(self, happening: Happening) -> TurnState {
        match happening {
            Happening::Polled(token, events) => TurnState {
                pipe: self.pipe.with_events(token, events),
                ..self
            },
            Happening::Answered(event) => self.ready(event).0,
        }
    }

    /// The pipe after several things happened to it, one after the other.
    pub open spec fn after_all(self, happenings: Seq<Happening>) -> TurnState
        decreases happenings.len(),
    {
        if happenings.len() == 0 {
            self
        } else {
            self.after_all(happenings.drop_last()).after(happenings.last())
        }
    }

    /// Every answer is one to what the turn asked for.
    pub open spec fn allows(self, happenings: Seq<Happening>) -> bool
        decreases happenings.len(),
    {
        happenings.len() == 0 || {
            &&& self.allows(happenings.drop_last())
            &&& happenings.last() matches Happening::Answered(event) ==> self.after_all(
                happenings.drop_last(),
            ).accepts(event)
        }
    }

    /// All that the frontend sent.
    pub open spec fn all_from_front(self, happenings: Seq<Happening>) -> Seq<u8>
        decreases happenings.len(),
    {
        if happenings.len() == 0 {
            Seq::empty()
        } else {
            self.all_from_front(happenings.drop_last()) + self.after_all(
                happenings.drop_last(),
            ).from_front(happenings.last())
        }
    }

    /// All that the backend sent.
    pub open spec fn all_from_back(self, happenings: Seq<Happening>) -> Seq<u8>
        decreases happenings.len(),
    {
        if happenings.len() == 0 {
            Seq::empty()
        } else {
            self.all_from_back(happenings.drop_last()) + self.after_all(
                happenings.drop_last(),
            ).from_back(happenings.last())
        }
    }

    /// All that the backend received.
    pub open spec fn all_to_back(self, happenings: Seq<Happening>) -> Seq<u8>
        decreases happenings.len(),
    {
        if happenings.len() == 0 {
            Seq::empty()
        } else {
            self.all_to_back(happenings.drop_last()) + self.after_all(
                happenings.drop_last(),
            ).to_back(happenings.last())
        }
    }

    /// All that the frontend received.
    pub open spec fn all_to_front(self, happenings: Seq<Happening>) -> Seq<u8>
        decreases happenings.len(),
    {
        if happenings.len() == 0 {
            Seq::empty()
        } else {
            self.all_to_front(happenings.drop_last()) + self.after_all(
                happenings.drop_last(),
            ).to_front(happenings.last())
        }
    }

    /// No stage touches the buffers by itself.
    proof fn lemma_step_keeps_data(self)
        ensures
            match self.step() {
                Progress::Going(next) => next.pipe.frontend_buffer == self.pipe.frontend_buffer
                    && next.pipe.backend_buffer == self.pipe.backend_buffer,
                Progress::Stopped(state, _) => state.pipe.frontend_buffer
                    == self.pipe.frontend_buffer && state.pipe.backend_buffer
                    == self.pipe.backend_buffer,
            },
    {
        reveal(TurnState::step);
    }

    proof fn lemma_run_keeps_data(self)
        requires
            self.turn.valid(),
        ensures
            self.run().0.pipe.frontend_buffer == self.pipe.frontend_buffer,
            self.run().0.pipe.backend_buffer == self.pipe.backend_buffer,
            self.run().0.turn.valid(),
        decreases self.turn.left(),
    {
        self.lemma_step_keeps_data();
        self.lemma_step_ends();
        match self.step() {
            Progress::Going(next) => {
                next.lemma_run_keeps_data();
            },
            Progress::Stopped(_, _) => {},
        }
    }

    /// What is written leaves the buffer, and what is read comes in behind the rest.
    proof fn lemma_answer_moves_data(self, event: SocketEventModel)
        requires
            self.turn.valid(),
            self.accepts(event),
        ensures
            ({
                let happening = Happening::Answered(event);
                let after = self.after(happening);
                &&& after.turn.valid()
                &&& self.pipe.frontend_buffer.data + self.from_front(happening) =~= self.to_back(
                    happening,
                ) + after.pipe.frontend_buffer.data
                &&& self.pipe.backend_buffer.data + self.from_back(happening) =~= self.to_front(
                    happening,
                ) + after.pipe.backend_buffer.data
            }),
    {
        self.lemma_answer_is_valid(event);
        match self.answered(event) {
            Progress::Going(next) => {
                next.lemma_run_keeps_data();
            },
            Progress::Stopped(_, _) => {},
        }
        let middle = match self.answered(event) {
            Progress::Going(next) => next,
            Progress::Stopped(state, _) => state,
        };
        reveal(TurnState::answered);
        let front = self.pipe.frontend_buffer.data;
        let back = self.pipe.backend_buffer.data;
        match event {
            SocketEventModel::Start => {},
            SocketEventModel::Read(bytes, res) => {
                if self.turn.stage == Stage::FrontRead {
                    lemma_front_read_data(self.pipe, self.metrics, bytes, res);
                } else {
                    lemma_back_read_data(self.pipe, self.metrics, bytes, res);
                }
            },
            SocketEventModel::Wrote(n, res) => {
                if self.turn.stage == Stage::BackWrite {
                    lemma_back_write_data(self.pipe, self.metrics, self.turn.sent, n, res);
                } else {
                    lemma_front_write_data(self.pipe, self.metrics, self.turn.sent, n, res);
                }
            },
        }
    }
}

proof fn lemma_front_read_data(
    pipe: PipeModel,
    metrics: SessionMetrics,
    bytes: Seq<u8>,
    res: SocketResult,
)
    ensures
        pipe.after_front_read(metrics, Some((bytes, res))).0.frontend_buffer.data
            == pipe.frontend_buffer.data + bytes,
        pipe.after_front_read(metrics, Some((bytes, res))).0.backend_buffer == pipe.backend_buffer,
{
    if bytes.len() == 0 {
        assert(pipe.frontend_buffer.data + bytes =~= pipe.frontend_buffer.data);
    }
}

proof fn lemma_back_read_data(
    pipe: PipeModel,
    metrics: SessionMetrics,
    bytes: Seq<u8>,
    res: SocketResult,
)
    ensures
        pipe.after_back_read(metrics, Some((bytes, res))).0.backend_buffer.data
            == pipe.backend_buffer.data + bytes,
        pipe.after_back_read(metrics, Some((bytes, res))).0.frontend_buffer == pipe.frontend_buffer,
{
}

proof fn lemma_back_write_data(
    pipe: PipeModel,
    metrics: SessionMetrics,
    sent: usize,
    n: usize,
    res: SocketResult,
)
    ensures
        first(pipe.frontend_buffer.data, n) + pipe.after_back_write(
            metrics,
            sent,
            n,
            res,
        ).0.frontend_buffer.data == pipe.frontend_buffer.data,
        pipe.after_back_write(metrics, sent, n, res).0.backend_buffer == pipe.backend_buffer,
{
    let data = pipe.frontend_buffer.data;
    let left = pipe.after_back_write(metrics, sent, n, res).0.frontend_buffer.data;
    assert(left == pipe.frontend_buffer.consumed(n as nat).data);
    assert(first(data, n) + left =~= data);
}

proof fn lemma_front_write_data(
    pipe: PipeModel,
    metrics: SessionMetrics,
    sent: usize,
    n: usize,
    res: SocketResult,
)
    ensures
        first(pipe.backend_buffer.data, n) + pipe.after_front_write(
            metrics,
            sent,
            n,
            res,
        ).0.backend_buffer.data == pipe.backend_buffer.data,
        pipe.after_front_write(metrics, sent, n, res).0.frontend_buffer == pipe.frontend_buffer,
{
    let data = pipe.backend_buffer.data;
    let left = pipe.after_front_write(metrics, sent, n, res).0.backend_buffer.data;
    assert(left == pipe.backend_buffer.consumed(n as nat).data);
    assert(first(data, n) + left =~= data);
}

/// Whatever happens to a pipe, the backend receives what the frontend sent, unchanged and in order,
/// but for what is still in the buffer; and the frontend receives what the backend sent in the same
/// way.
pub proof fn law_bytes_are_forwarded(start: TurnState, happenings: Seq<Happening>)
    requires
        start.turn.valid(),
        start.allows(happenings),
    ensures
        ({
            let end = start.after_all(happenings);
            &&& start.pipe.frontend_buffer.data + start.all_from_front(happenings)
                == start.all_to_back(happenings) + end.pipe.frontend_buffer.data
            &&& start.pipe.backend_buffer.data + start.all_from_back(happenings)
                == start.all_to_front(happenings) + end.pipe.backend_buffer.data
            &&& end.turn.valid()
        }),
    decreases happenings.len(),
{
    let end = start.after_all(happenings);
    if happenings.len() == 0 {
        assert(start.pipe.frontend_buffer.data + start.all_from_front(happenings)
            =~= start.all_to_back(happenings) + end.pipe.frontend_buffer.data);
        assert(start.pipe.backend_buffer.data + start.all_from_back(happenings)
            =~= start.all_to_front(happenings) + end.pipe.backend_buffer.data);
    } else {
        let before = happenings.drop_last();
        let last = happenings.last();
        law_bytes_are_forwarded(start, before);
        let middle = start.after_all(before);
        match last {
            Happening::Polled(_, _) => {
                assert(middle.pipe.frontend_buffer.data + middle.from_front(last)
                    =~= middle.to_back(last) + end.pipe.frontend_buffer.data);
                assert(middle.pipe.backend_buffer.data + middle.from_back(last)
                    =~= middle.to_front(last) + end.pipe.backend_buffer.data);
            },
            Happening::Answered(event) => {
                middle.lemma_answer_moves_data(event);
            },
        }
        lemma_join(
            start.pipe.frontend_buffer.data,
            start.all_from_front(before),
            start.all_to_back(before),
            middle.pipe.frontend_buffer.data,
            middle.from_front(last),
            middle.to_back(last),
            end.pipe.frontend_buffer.data,
        );
        lemma_join(
            start.pipe.backend_buffer.data,
            start.all_from_back(before),
            start.all_to_front(before),
            middle.pipe.backend_buffer.data,
            middle.from_back(last),
            middle.to_front(last),
            end.pipe.backend_buffer.data,
        );
    }
}

/// Two stretches of a stream join.
proof fn lemma_join(
    start: Seq<u8>,
    came: Seq<u8>,
    went: Seq<u8>,
    middle: Seq<u8>,
    comes: Seq<u8>,
    goes: Seq<u8>,
    end: Seq<u8>,
)
    requires
        start + came == went + middle,
        middle + comes == goes + end,
    ensures
        start + (came + comes) == (went + goes) + end,
{
    assert(start + (came + comes) =~= (start + came) + comes);
    assert((went + middle) + comes =~= went + (middle + comes));
    assert(went + (goes + end) =~= (went + goes) + end);
}

/// A turn whose rounds ran out closes the session, with nothing in the access log.
pub proof fn law_exhausted_turn_closes(start: TurnState, event: SocketEventModel)
    requires
        start.turn.valid(),
        start.accepts(event),
    ensures
        ({
            let (after, step) = start.ready(event);
            after.turn.counter >= MAX_ROUNDS ==> step == super::turn::finished(
                ProtocolResult::Close,
            )
        }),
{
    reveal(TurnState::answered);
    start.lemma_answer_is_valid(event);
    match start.answered(event) {
        Progress::Going(next) => {
            lemma_exhausted_run_closes(next);
        },
        Progress::Stopped(_, _) => {},
    }
}

proof fn lemma_exhausted_run_closes(state: TurnState)
    requires
        state.turn.valid(),
    ensures
        ({
            let (after, step) = state.run();
            after.turn.counter >= MAX_ROUNDS ==> step == super::turn::finished(
                ProtocolResult::Close,
            )
        }),
    decreases state.turn.left(),
{
    state.lemma_step_ends();
    match state.step() {
        Progress::Going(next) => {
            lemma_exhausted_run_closes(next);
        },
        Progress::Stopped(stopped, _) => {
            assert(stopped.turn.counter == state.turn.counter) by {
                reveal(TurnState::step);
            }
            if state.turn.counter >= MAX_ROUNDS {
                reveal(TurnState::step);
            }
        },
    }
}

} // verus!
