//! Why a pipe never gets stuck: what it waits for at the end of a turn, and when it closes.
use vstd::prelude::*;

use crate::buffer::BufferModel;
use crate::ready::{Readiness, Ready};
use crate::session::{ProtocolResult, SessionMetrics, SessionResult, SocketResult};

use super::laws::Happening;
use super::steps::WriteStep;
use super::turn::{Progress, SocketEventModel, Stage, TurnModel, TurnState, TurnStep};
use super::PipeModel;

verus! {

/// A buffer that can hold something, and has room whenever it is empty.
#[verifier::opaque]
pub open spec fn usable(buffer: BufferModel) -> bool {
    &&& buffer.wf()
    &&& 0 < buffer.capacity <= usize::MAX
    &&& buffer.position <= buffer.capacity / 2
}

/// The backend hung up, and the frontend cannot take what is left for it now.
pub open spec fn drained_later(pipe: PipeModel) -> bool {
    &&& pipe.backend_readiness.event.hup
    &&& pipe.frontend_readiness.interest.writable
    &&& !pipe.frontend_readiness.event.writable
}

pub(crate) proof fn lemma_usable_stays(buffer: BufferModel, bytes: Seq<u8>, n: nat)
    requires
        usable(buffer),
    ensures
        bytes.len() <= buffer.space() ==> usable(buffer.filled(bytes)),
        usable(buffer.consumed(n)),
        0 <= buffer.space() <= usize::MAX,
        buffer.consumed(n).capacity == buffer.capacity,
        buffer.data.len() == 0 ==> buffer.space() > 0,
        buffer.consumed(0) == buffer,
        n == 0 ==> buffer.consumed(n) == buffer,
        buffer.filled(bytes).data == buffer.data + bytes,
{
    reveal(usable);
    assert(buffer.data.skip(0) =~= buffer.data);
    assert(buffer.consumed(0) =~= buffer);
}

impl PipeModel {
    /// Nothing that the pipe has to hear of is left out of its interests. In the middle of a write
    /// to the frontend the backend may wait.
    spec fn attentive(self, amid_write: bool) -> bool {
        let front = self.frontend_readiness.interest;
        let back = self.backend_readiness.interest;
        &&& usable(self.frontend_buffer)
        &&& usable(self.backend_buffer)
        &&& front.readable || back.writable
        &&& back.readable || front.writable
        &&& self.frontend_buffer.data.len() > 0 ==> back.writable
        &&& self.backend_buffer.data.len() > 0 ==> front.writable
        &&& self.backend_buffer.space() > 0 ==> back.readable || amid_write
        &&& front.error && front.hup && back.error && back.hup
    }

    proof fn lemma_front_read(self, metrics: SessionMetrics, got: Option<(Seq<u8>, SocketResult)>)
        requires
            self.attentive(false),
            match got {
                None => self.frontend_buffer.space() == 0,
                Some((bytes, _)) => bytes.len() <= self.frontend_buffer.space(),
            },
        ensures
            ({
                let (pipe, _, report) = self.after_front_read(metrics, got);
                report.result == SessionResult::Continue ==> pipe.attentive(false)
            }),
    {
        if let Some((bytes, _)) = got {
            lemma_usable_stays(self.frontend_buffer, bytes, 0);
        }
    }

    proof fn lemma_back_read(self, metrics: SessionMetrics, got: Option<(Seq<u8>, SocketResult)>)
        requires
            self.attentive(false),
            match got {
                None => self.backend_buffer.space() == 0 || !self.backend,
                Some((bytes, _)) => 0 < self.backend_buffer.space() && bytes.len()
                    <= self.backend_buffer.space(),
            },
        ensures
            ({
                let (pipe, _, report) = self.after_back_read(metrics, got);
                report.result == SessionResult::Continue ==> pipe.attentive(false)
            }),
    {
        lemma_usable_stays(self.backend_buffer, Seq::empty(), 0);
        if let Some((bytes, _)) = got {
            lemma_usable_stays(self.backend_buffer, bytes, 0);
        }
    }

    proof fn lemma_before_writes(self, metrics: SessionMetrics)
        requires
            self.attentive(false),
        ensures
            match self.before_front_write(metrics) {
                (pipe, _, WriteStep::More { sent }) => sent == 0 && pipe == self
                    && self.backend_buffer.data.len() > 0,
                (pipe, _, WriteStep::Done(report)) => report.result == SessionResult::Continue
                    ==> pipe.attentive(false),
            },
            match self.before_back_write(metrics) {
                (pipe, _, WriteStep::More { sent }) => sent == 0 && pipe == self
                    && self.frontend_buffer.data.len() > 0,
                (pipe, _, WriteStep::Done(report)) => report.result == SessionResult::Continue
                    ==> pipe.attentive(false),
            },
    {
    }

    proof fn lemma_front_write(
        self,
        metrics: SessionMetrics,
        sent: usize,
        n: usize,
        res: SocketResult,
    )
        requires
            self.attentive(sent > 0),
            sent + n <= usize::MAX,
        ensures
            match self.after_front_write(metrics, sent, n, res) {
                (pipe, _, WriteStep::More { sent: total }) => pipe.attentive(total > 0)
                    && pipe.backend_buffer.data.len() > 0,
                (pipe, _, WriteStep::Done(report)) => report.result == SessionResult::Continue
                    ==> pipe.attentive(false),
            },
    {
        lemma_usable_stays(self.backend_buffer, Seq::empty(), n as nat);
    }

    proof fn lemma_back_write(
        self,
        metrics: SessionMetrics,
        sent: usize,
        n: usize,
        res: SocketResult,
    )
        requires
            self.attentive(false),
            sent + n <= usize::MAX,
        ensures
            match self.after_back_write(metrics, sent, n, res) {
                (pipe, _, WriteStep::More { .. }) => pipe.attentive(false)
                    && pipe.frontend_buffer.data.len() > 0,
                (pipe, _, WriteStep::Done(report)) => report.result == SessionResult::Continue
                    ==> pipe.attentive(false),
            },
    {
        lemma_usable_stays(self.frontend_buffer, Seq::empty(), n as nat);
    }

    proof fn lemma_back_hup(self)
        requires
            self.attentive(false),
        ensures
            self.after_back_hup().1.result == SessionResult::Continue
                ==> self.after_back_hup().0.attentive(false),
    {
    }
}

impl TurnState {
    /// The pipe in its turn.
    spec fn attentive(self) -> bool {
        self.pipe.attentive(self.turn.stage == Stage::FrontWrite && self.turn.sent > 0)
    }

    /// What is asked for fits the state, and a turn ends only when there is nothing left to do.
    spec fn sensible(self, step: TurnStep) -> bool {
        match step {
            TurnStep::Finished { result, .. } => {
                ||| result == ProtocolResult::Close
                ||| {
                    &&& result == ProtocolResult::Continue
                    &&& self.turn.stage == Stage::Head
                    &&& (self.pipe.frontend_readiness.pending() == Ready::none()
                        && self.pipe.backend_readiness.pending() == Ready::none())
                        || drained_later(self.pipe)
                }
            },
            TurnStep::ReadFront { room } => {
                &&& self.turn.stage == Stage::FrontRead
                &&& 0 < room == self.pipe.frontend_buffer.space()
            },
            TurnStep::ReadBack { room } => {
                &&& self.turn.stage == Stage::BackRead
                &&& self.pipe.backend
                &&& 0 < room == self.pipe.backend_buffer.space()
            },
            TurnStep::WriteFront => {
                &&& self.turn.stage == Stage::FrontWrite
                &&& self.pipe.backend_buffer.data.len() > 0
            },
            TurnStep::WriteBack => {
                &&& self.turn.stage == Stage::BackWrite
                &&& self.pipe.frontend_buffer.data.len() > 0
            },
        }
    }
}

/// The step closes the session.
pub open spec fn closes(step: TurnStep) -> bool {
    step matches TurnStep::Finished { result, .. } && result == ProtocolResult::Close
}

impl TurnState {
    proof fn lemma_step_is_attentive(self)
        requires
            self.turn.valid(),
            self.attentive(),
            (self.turn.stage == Stage::FrontWrite || self.turn.stage == Stage::BackWrite)
                ==> self.turn.sent == 0,
        ensures
            match self.step() {
                Progress::Going(next) => next.attentive() && next.turn.sent == 0,
                Progress::Stopped(state, step) => state.sensible(step) && (closes(step)
                    || state.attentive()),
            },
    {
        reveal(TurnState::step);
        lemma_usable_stays(self.pipe.frontend_buffer, Seq::empty(), 0);
        lemma_usable_stays(self.pipe.backend_buffer, Seq::empty(), 0);
        let (pipe, metrics) = (self.pipe, self.metrics);
        match self.turn.stage {
            Stage::Head => {},
            Stage::FrontRead => {
                if pipe.frontend_buffer.space() == 0 {
                    pipe.lemma_front_read(metrics, None);
                }
            },
            Stage::BackWrite => {
                pipe.lemma_before_writes(metrics);
            },
            Stage::BackRead => {
                if pipe.backend_buffer.space() == 0 || !pipe.backend {
                    pipe.lemma_back_read(metrics, None);
                }
            },
            Stage::FrontWrite => {
                pipe.lemma_before_writes(metrics);
            },
            Stage::BackHup => {
                pipe.lemma_back_hup();
            },
            Stage::FrontError => {},
            Stage::BackError => {
                pipe.lemma_back_hup();
            },
        }
    }

    proof fn lemma_run_is_attentive(self)
        requires
            self.turn.valid(),
            self.attentive(),
            self.turn.sent == 0,
        ensures
            ({
                let (state, step) = self.run();
                &&& state.turn.valid()
                &&& state.sensible(step)
                &&& closes(step) || state.attentive()
            }),
        decreases self.turn.left(),
    {
        self.lemma_step_is_attentive();
        self.lemma_step_ends();
        match self.step() {
            Progress::Going(next) => {
                next.lemma_run_is_attentive();
            },
            Progress::Stopped(_, _) => {},
        }
    }

    proof fn lemma_answer_is_attentive(self, event: SocketEventModel)
        requires
            self.turn.valid(),
            self.attentive(),
            self.accepts(event),
            event is Start ==> self.turn.stage == Stage::Head,
        ensures
            ({
                let (state, step) = self.ready(event);
                &&& state.turn.valid()
                &&& state.sensible(step)
                &&& closes(step) || state.attentive()
            }),
    {
        self.lemma_answer_is_valid(event);
        let (pipe, metrics, turn) = (self.pipe, self.metrics, self.turn);
        assert(match self.answered(event) {
            Progress::Going(next) => next.attentive() && next.turn.sent == 0,
            Progress::Stopped(state, step) => state.sensible(step) && (closes(step)
                || state.attentive()),
        }) by {
            reveal(TurnState::answered);
            match event {
                SocketEventModel::Start => {},
                SocketEventModel::Read(bytes, res) => {
                    if turn.stage == Stage::FrontRead {
                        pipe.lemma_front_read(metrics, Some((bytes, res)));
                    } else {
                        pipe.lemma_back_read(metrics, Some((bytes, res)));
                    }
                },
                SocketEventModel::Wrote(n, res) => {
                    if turn.stage == Stage::BackWrite {
                        pipe.lemma_back_write(metrics, turn.sent, n, res);
                    } else {
                        pipe.lemma_front_write(metrics, turn.sent, n, res);
                    }
                },
            }
        }
        match self.answered(event) {
            Progress::Going(next) => {
                next.lemma_run_is_attentive();
            },
            Progress::Stopped(_, _) => {},
        }
    }
}


/// A new pipe. Events of the frontend may have come before it.
pub open spec fn is_new(pipe: PipeModel) -> bool {
    let fresh = PipeModel::fresh(
        pipe.frontend_token,
        pipe.request_id,
        pipe.cluster_id,
        pipe.backend_id,
        pipe.websocket_context,
        pipe.backend,
        pipe.frontend_buffer,
        pipe.backend_buffer,
        pipe.session_address,
        pipe.protocol,
    );
    pipe == PipeModel {
        frontend_readiness: Readiness {
            event: pipe.frontend_readiness.event,
            ..fresh.frontend_readiness
        },
        backend_token: pipe.backend_token,
        frontend_timeout: pipe.frontend_timeout,
        backend_timeout: pipe.backend_timeout,
        ..fresh
    }
}

/// A buffer of which nothing was used yet.
pub open spec fn is_unused(buffer: BufferModel) -> bool {
    &&& buffer.wf()
    &&& buffer.position == 0
    &&& 0 < buffer.capacity <= usize::MAX
}

impl TurnState {
    /// A new pipe before its first turn.
    pub open spec fn is_start(self) -> bool {
        &&& is_new(self.pipe)
        &&& is_unused(self.pipe.frontend_buffer)
        &&& is_unused(self.pipe.backend_buffer)
        &&& self.turn == TurnModel::fresh()
    }

    /// The event answers what was asked for, and a turn begins only when the one before is over.
    pub open spec fn expects(self, event: SocketEventModel) -> bool {
        self.accepts(event) && (event is Start ==> self.turn.stage == Stage::Head)
    }

    /// What happens is expected, and nothing of it closes the session.
    pub open spec fn lives_through(self, happenings: Seq<Happening>) -> bool
        decreases happenings.len(),
    {
        happenings.len() == 0 || {
            let before = self.after_all(happenings.drop_last());
            &&& self.lives_through(happenings.drop_last())
            &&& happenings.last() matches Happening::Answered(event) ==> before.expects(event)
                && !closes(before.ready(event).1)
        }
    }
}

proof fn lemma_life_is_attentive(start: TurnState, happenings: Seq<Happening>)
    requires
        start.is_start(),
        start.lives_through(happenings),
    ensures
        start.after_all(happenings).attentive(),
        start.after_all(happenings).turn.valid(),
    decreases happenings.len(),
{
    if happenings.len() == 0 {
        reveal(usable);
    } else {
        let before = start.after_all(happenings.drop_last());
        lemma_life_is_attentive(start, happenings.drop_last());
        if let Happening::Answered(event) = happenings.last() {
            before.lemma_answer_is_attentive(event);
        }
    }
}

pub(crate) proof fn lemma_life_is_bounded(start: TurnState, happenings: Seq<Happening>)
    requires
        start.is_start(),
        start.lives_through(happenings),
    ensures
        usable(start.after_all(happenings).pipe.frontend_buffer),
        usable(start.after_all(happenings).pipe.backend_buffer),
{
    lemma_life_is_attentive(start, happenings);
}

/// A pipe never gets stuck. From a new pipe on, whatever happened so far, a turn that ends without
/// closing the session leaves nothing undone that could be done:
/// - where the client has sent something, the backend cannot take anything now;
/// - where the backend has sent something, there is no room for it, and the client cannot take
///   anything now;
/// - data for the backend is left only where the backend cannot take it now, and data for the client
///   only where the client cannot;
/// - no socket has failed or hung up.
///
/// After the backend hung up, a turn may also end because the client cannot take what is left for
/// it. In any case the pipe still listens for whatever lets it go on.
pub proof fn law_pipe_never_stalls(
    start: TurnState,
    happenings: Seq<Happening>,
    event: SocketEventModel,
)
    requires
        start.is_start(),
        start.lives_through(happenings),
        start.after_all(happenings).expects(event),
    ensures
        ({
            let (end, step) = start.after_all(happenings).ready(event);
            let (front, back) = (end.pipe.frontend_readiness, end.pipe.backend_readiness);
            let to_back = end.pipe.frontend_buffer.data.len() > 0;
            let to_front = end.pipe.backend_buffer.data.len() > 0;
            !closes(step) ==> {
                &&& front.interest.readable || back.interest.writable
                &&& back.interest.readable || front.interest.writable
                &&& to_back ==> back.interest.writable
                &&& to_front ==> front.interest.writable
                &&& front.interest.error && front.interest.hup
                &&& back.interest.error && back.interest.hup
                &&& step is Finished ==> {
                    &&& step matches TurnStep::Finished { result, .. } && result
                        == ProtocolResult::Continue
                    &&& (end.pipe.backend_buffer.space() > 0 ==> back.interest.readable)
                    &&& !(back.event.hup && front.interest.writable && !front.event.writable) ==> {
                        &&& !(front.event.readable && back.event.writable)
                        &&& !(back.event.readable && front.event.writable)
                        &&& !(back.event.readable && end.pipe.backend_buffer.space() > 0)
                        &&& !(to_back && back.event.writable)
                        &&& !(to_front && front.event.writable)
                        &&& !front.event.error && !front.event.hup
                        &&& !back.event.error && !back.event.hup
                    }
                }
            }
        }),
{
    lemma_life_is_attentive(start, happenings);
    start.after_all(happenings).lemma_answer_is_attentive(event);
}

/// What a pipe asks for can be done: it asks for a read only where it has room, and for as many bytes
/// as fit; and for a write only where it has data.
pub proof fn law_pipe_asks_for_what_it_can_use(
    start: TurnState,
    happenings: Seq<Happening>,
    event: SocketEventModel,
)
    requires
        start.is_start(),
        start.lives_through(happenings),
        start.after_all(happenings).expects(event),
    ensures
        ({
            let (end, step) = start.after_all(happenings).ready(event);
            match step {
                TurnStep::ReadFront { room } => {
                    &&& 0 < room == end.pipe.frontend_buffer.space()
                    &&& forall|bytes: Seq<u8>, res: SocketResult|
                        bytes.len() <= room && end.metrics.bin + bytes.len() <= usize::MAX
                            ==> #[trigger] end.expects(SocketEventModel::Read(bytes, res))
                },
                TurnStep::ReadBack { room } => {
                    &&& 0 < room == end.pipe.backend_buffer.space()
                    &&& forall|bytes: Seq<u8>, res: SocketResult|
                        bytes.len() <= room && end.metrics.backend_bin + bytes.len() <= usize::MAX
                            ==> #[trigger] end.expects(SocketEventModel::Read(bytes, res))
                },
                TurnStep::WriteFront => {
                    &&& end.pipe.backend_buffer.data.len() > 0
                    &&& end.turn.stage == Stage::FrontWrite
                },
                TurnStep::WriteBack => {
                    &&& end.pipe.frontend_buffer.data.len() > 0
                    &&& end.turn.stage == Stage::BackWrite
                },
                TurnStep::Finished { result, .. } => {
                    result == ProtocolResult::Continue ==> end.expects(SocketEventModel::Start)
                },
            }
        }),
{
    lemma_life_is_attentive(start, happenings);
    start.after_all(happenings).lemma_answer_is_attentive(event);
}

} // verus!
