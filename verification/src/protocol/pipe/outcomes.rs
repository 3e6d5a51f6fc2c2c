//! What becomes of the events, the peers and the counters of a pipe, and how its session ends.
use vstd::prelude::*;

use crate::ready::{Ready, Token};
use crate::session::{
    ProtocolResult, SessionMetrics, SessionResult, SocketResult, TimeoutContainer, TimerOrder,
};

use super::laws::Happening;
use super::steps::{AccessError, AccessLog, Report, WriteStep};
use super::turn::{Progress, SocketEventModel, Stage, TurnModel, TurnState, TurnStep, MAX_ROUNDS};
use super::{ConnectionStatus, PipeModel};

verus! {

/// The peer still sends.
pub open spec fn sends(status: ConnectionStatus) -> bool {
    status == ConnectionStatus::Normal || status == ConnectionStatus::ReadOpen
}

/// The peer still receives.
pub open spec fn receives(status: ConnectionStatus) -> bool {
    status == ConnectionStatus::Normal || status == ConnectionStatus::WriteOpen
}

/// When a session goes on, from what its peers still do and from the data that is on its way:
/// - where no peer receives any more it ends;
/// - where one peer is gone it goes on exactly as long as there is data that the other one takes;
/// - where no peer sends any more it goes on exactly as long as there is data;
/// - where one peer does not send any more but all else is well, it goes on as long as there is data
///   or the other peer has something to say;
/// - otherwise it goes on.
pub proof fn law_when_a_session_goes_on(pipe: PipeModel)
    ensures
        ({
            let (front, back) = (pipe.frontend_status, pipe.backend_status);
            let to_back = pipe.frontend_buffer.data.len() > 0;
            let to_front = pipe.backend_buffer.data.len() > 0;
            &&& !receives(front) && !receives(back) ==> !pipe.goes_on()
            &&& back == ConnectionStatus::Closed ==> (pipe.goes_on() <==> receives(front)
                && to_front)
            &&& front == ConnectionStatus::Closed ==> (pipe.goes_on() <==> receives(back)
                && to_back)
            &&& front == ConnectionStatus::WriteOpen && back == ConnectionStatus::WriteOpen ==> (
            pipe.goes_on() <==> to_back || to_front)
            &&& front == ConnectionStatus::Normal && back == ConnectionStatus::WriteOpen ==> (
            pipe.goes_on() <==> to_back || to_front || pipe.frontend_readiness.event.readable)
            &&& front == ConnectionStatus::WriteOpen && back == ConnectionStatus::Normal ==> (
            pipe.goes_on() <==> to_back || to_front || pipe.backend_readiness.event.readable)
            &&& front == ConnectionStatus::Normal && back == ConnectionStatus::Normal
                ==> pipe.goes_on()
            &&& front == ConnectionStatus::ReadOpen && receives(back) ==> pipe.goes_on()
            &&& back == ConnectionStatus::ReadOpen && receives(front) ==> pipe.goes_on()
        }),
{
}

/// The bytes came from the frontend.
pub open spec fn is_front_read(stage: Stage, event: SocketEventModel) -> bool {
    event is Read && stage == Stage::FrontRead
}

/// The bytes came from the backend.
pub open spec fn is_back_read(stage: Stage, event: SocketEventModel) -> bool {
    event is Read && stage == Stage::BackRead
}

/// The bytes went to the frontend.
pub open spec fn is_front_write(stage: Stage, event: SocketEventModel) -> bool {
    event is Wrote && stage == Stage::FrontWrite
}

/// The bytes went to the backend.
pub open spec fn is_back_write(stage: Stage, event: SocketEventModel) -> bool {
    event is Wrote && stage == Stage::BackWrite
}

/// What the socket said.
pub open spec fn said(event: SocketEventModel) -> SocketResult {
    match event {
        SocketEventModel::Start => SocketResult::Continue,
        SocketEventModel::Read(_, res) => res,
        SocketEventModel::Wrote(_, res) => res,
    }
}

/// How many bytes were moved.
pub open spec fn moved(event: SocketEventModel) -> nat {
    match event {
        SocketEventModel::Start => 0,
        SocketEventModel::Read(bytes, _) => bytes.len(),
        SocketEventModel::Wrote(n, _) => n as nat,
    }
}

/// The backend hung up or failed, as far as the turn knows.
pub open spec fn backend_is_gone(state: TurnState) -> bool {
    ||| state.turn.back.hup
    ||| state.turn.back.error
    ||| state.pipe.backend_readiness.event.hup
    ||| state.pipe.backend_readiness.event.error
}

impl PipeModel {
    /// Nothing but the interests and the timers changed.
    #[verifier::opaque]
    spec fn only_listens_to(self, next: PipeModel) -> bool {
        &&& next.frontend_readiness.event == self.frontend_readiness.event
        &&& next.backend_readiness.event == self.backend_readiness.event
        &&& next.frontend_status == self.frontend_status
        &&& next.backend_status == self.backend_status
        &&& next.backend == self.backend
        &&& next.frontend_token == self.frontend_token
        &&& next.backend_token == self.backend_token
    }

    proof fn lemma_full_reads(self, metrics: SessionMetrics)
        ensures
            ({
                let (pipe, after, report) = self.after_front_read(metrics, None);
                &&& report == Report::going_on()
                &&& self.only_listens_to(pipe)
                &&& after == metrics
            }),
            ({
                let (pipe, after, report) = self.after_back_read(metrics, None);
                &&& report == Report::going_on()
                &&& self.only_listens_to(pipe)
                &&& after == metrics
            }),
    {
        reveal(PipeModel::only_listens_to);
    }

    proof fn lemma_write_starts(self, metrics: SessionMetrics)
        ensures
            ({
                let (pipe, after, step) = self.before_front_write(metrics);
                &&& self.only_listens_to(pipe)
                &&& after == metrics
                &&& step matches WriteStep::Done(report) ==> report == Report::going_on()
            }),
            ({
                let (pipe, after, step) = self.before_back_write(metrics);
                &&& step matches WriteStep::Done(report) ==> report == Report::going_on() || report
                    == Report::ended()
                &&& !(step matches WriteStep::Done(report) && report == Report::ended())
                    ==> self.only_listens_to(pipe) && after == metrics
                &&& self.backend || self.goes_on() ==> !(step matches WriteStep::Done(report)
                    && report == Report::ended())
            }),
    {
        reveal(PipeModel::only_listens_to);
    }

    proof fn lemma_hup(self)
        ensures
            ({
                let (pipe, report) = self.after_back_hup();
                &&& report == Report::going_on() || report == Report::ended()
                &&& (PipeModel { backend_status: ConnectionStatus::Closed, ..self }).only_listens_to(
                    pipe,
                )
            }),
    {
        reveal(PipeModel::only_listens_to);
    }
}

impl TurnState {
    /// Nothing but its place in the turn and its interests changed.
    #[verifier::opaque]
    spec fn only_moved_to(self, next: TurnState) -> bool {
        &&& next.pipe.frontend_readiness.event == self.pipe.frontend_readiness.event
        &&& next.pipe.backend_readiness.event == self.pipe.backend_readiness.event
        &&& next.pipe.frontend_status == self.pipe.frontend_status
        &&& next.pipe.backend_status == self.pipe.backend_status || (backend_is_gone(self)
            && next.pipe.backend_status == ConnectionStatus::Closed)
        &&& backend_is_gone(next) ==> backend_is_gone(self)
        &&& next.turn.front.error ==> self.turn.front.error
            || self.pipe.frontend_readiness.event.error
        &&& next.pipe.backend == self.pipe.backend
        &&& next.pipe.frontend_token == self.pipe.frontend_token
        &&& next.pipe.backend_token == self.pipe.backend_token
        &&& next.metrics == self.metrics
    }

    proof fn lemma_follow(
        self,
        pipe: PipeModel,
        metrics: SessionMetrics,
        report: Report,
        stage: Stage,
    )
        requires
            self.turn.valid(),
            metrics == self.metrics || report == Report::ended(),
            report == Report::going_on() || report == Report::ended(),
            report == Report::going_on() ==> self.pipe.only_listens_to(pipe) || (
            backend_is_gone(self) && (PipeModel {
                backend_status: ConnectionStatus::Closed,
                ..self.pipe
            }).only_listens_to(pipe)),
        ensures
            self.only_moved(self.followed_by(pipe, metrics, report, stage)),
    {
        reveal(PipeModel::only_listens_to);
        reveal(TurnState::only_moved_to);
        reveal(TurnState::only_moved);
    }

    proof fn lemma_stay(self, turn: TurnModel)
        requires
            turn.back == self.turn.back || turn.back == self.pipe.backend_readiness.pending(),
            turn.front == self.turn.front || turn.front == self.pipe.frontend_readiness.pending(),
        ensures
            self.only_moved_to(TurnState { turn, ..self }),
    {
        reveal(TurnState::only_moved_to);
    }

    /// What a stage leads to, as far as nothing else changed.
    #[verifier::opaque]
    spec fn only_moved(self, progress: Progress) -> bool {
        match progress {
            Progress::Going(next) => self.only_moved_to(next),
            Progress::Stopped(state, step) => {
                &&& super::liveness::closes(step) || (self.only_moved_to(state) && (
                step matches TurnStep::Finished { log, pipe_error, .. } ==> log
                    == AccessLog::Silent && !pipe_error))
                &&& step matches TurnStep::Finished { log, pipe_error, .. } ==> !(log is Error)
                    && !pipe_error
            },
        }
    }

    proof fn lemma_step_only_moves(self)
        requires
            self.turn.valid(),
        ensures
            self.only_moved(self.step()),
    {
        let (pipe, metrics) = (self.pipe, self.metrics);
        match self.turn.stage {
            Stage::Head => {
                self.lemma_head_only_moves();
            },
            Stage::FrontRead => {
                pipe.lemma_full_reads(metrics);
                let (p, m, report) = pipe.after_front_read(metrics, None);
                self.lemma_follow(p, m, report, Stage::BackWrite);
                self.lemma_skips(Stage::BackWrite);
                assert(self.only_moved(self.step())) by {
                    reveal(TurnState::step);
                }
            },
            Stage::BackRead => {
                pipe.lemma_full_reads(metrics);
                let (p, m, report) = pipe.after_back_read(metrics, None);
                self.lemma_follow(p, m, report, Stage::FrontWrite);
                self.lemma_skips(Stage::FrontWrite);
                assert(self.only_moved(self.step())) by {
                    reveal(TurnState::step);
                }
            },
            Stage::BackWrite => {
                pipe.lemma_write_starts(metrics);
                let (p, m, step) = pipe.before_back_write(metrics);
                self.lemma_follow_write(p, m, step, TurnStep::WriteBack, Stage::BackRead);
                self.lemma_skips(Stage::BackRead);
                assert(self.only_moved(self.step())) by {
                    reveal(TurnState::step);
                }
            },
            Stage::FrontWrite => {
                pipe.lemma_write_starts(metrics);
                let (p, m, step) = pipe.before_front_write(metrics);
                self.lemma_follow_write(p, m, step, TurnStep::WriteFront, Stage::BackHup);
                self.lemma_skips(Stage::BackHup);
                assert(self.only_moved(self.step())) by {
                    reveal(TurnState::step);
                }
            },
            Stage::BackHup => {
                pipe.lemma_hup();
                let (p, report) = pipe.after_back_hup();
                if self.turn.back.hup {
                    self.lemma_follow(p, metrics, report, Stage::FrontError);
                }
                self.lemma_skips(Stage::FrontError);
                assert(self.only_moved(self.step())) by {
                    reveal(TurnState::step);
                }
            },
            Stage::FrontError => {
                self.lemma_skips(Stage::BackError);
                assert(self.only_moved(self.step())) by {
                    reveal(TurnState::step);
                    reveal(TurnState::only_moved);
                }
            },
            Stage::BackError => {
                self.lemma_tail_only_moves();
            },
        }
    }

    proof fn lemma_skips(self, stage: Stage)
        ensures
            self.only_moved(self.skipped_to(stage)),
            self.only_moved(
                Progress::Stopped(
                    self,
                    TurnStep::ReadFront { room: self.pipe.frontend_buffer.space() as usize },
                ),
            ),
            self.only_moved(
                Progress::Stopped(
                    self,
                    TurnStep::ReadBack { room: self.pipe.backend_buffer.space() as usize },
                ),
            ),
    {
        reveal(TurnState::only_moved);
        self.lemma_stay(self.turn.at(stage));
        self.lemma_stay(self.turn);
    }

    proof fn lemma_follow_write(
        self,
        pipe: PipeModel,
        metrics: SessionMetrics,
        step: WriteStep,
        ask: TurnStep,
        stage: Stage,
    )
        requires
            self.turn.valid(),
            ask == TurnStep::WriteFront || ask == TurnStep::WriteBack,
            step matches WriteStep::Done(report) ==> report == Report::going_on() || report
                == Report::ended(),
            !(step matches WriteStep::Done(report) && report == Report::ended())
                ==> self.pipe.only_listens_to(pipe) && metrics == self.metrics,
        ensures
            self.only_moved(self.followed_by_write(pipe, metrics, step, ask, stage)),
    {
        match step {
            WriteStep::More { sent } => {
                reveal(PipeModel::only_listens_to);
                reveal(TurnState::only_moved_to);
                reveal(TurnState::only_moved);
            },
            WriteStep::Done(report) => {
                self.lemma_follow(pipe, metrics, report, stage);
            },
        }
    }

    proof fn lemma_head_only_moves(self)
        requires
            self.turn.valid(),
            self.turn.stage == Stage::Head,
        ensures
            self.only_moved(self.step()),
    {
        reveal(TurnState::step);
        reveal(TurnState::only_moved);
        self.lemma_stay(self.turn);
        self.lemma_stay(
            TurnModel {
                stage: Stage::FrontRead,
                front: self.pipe.frontend_readiness.pending(),
                back: self.pipe.backend_readiness.pending(),
                sent: 0,
                ..self.turn
            },
        );
    }

    proof fn lemma_tail_only_moves(self)
        requires
            self.turn.valid(),
            self.turn.stage == Stage::BackError,
        ensures
            self.only_moved(self.step()),
    {
        let pipe = self.pipe;
        let turn = TurnModel { counter: self.turn.counter + 1, ..self.turn };
        pipe.lemma_hup();
        let (p, report) = pipe.after_back_hup();
        self.lemma_stay(turn.at(Stage::Head));
        reveal(TurnState::step);
        reveal(TurnState::only_moved);
        if self.turn.back.error {
            reveal(PipeModel::only_listens_to);
            reveal(TurnState::only_moved_to);
        }
    }

    proof fn lemma_moves_on(self, next: TurnState, end: TurnState)
        requires
            self.only_moved_to(next),
        ensures
            next.only_moved_to(end) ==> self.only_moved_to(end),
    {
        reveal(TurnState::only_moved_to);
    }

    proof fn lemma_run_only_moves(self)
        requires
            self.turn.valid(),
        ensures
            ({
                let (state, step) = self.run();
                &&& super::liveness::closes(step) || (self.only_moved_to(state) && (
                step matches TurnStep::Finished { log, pipe_error, .. } ==> log
                    == AccessLog::Silent && !pipe_error))
                &&& step matches TurnStep::Finished { log, pipe_error, .. } ==> !(log is Error)
                    && !pipe_error
            }),
        decreases self.turn.left(),
    {
        self.lemma_step_only_moves();
        self.lemma_step_ends();
        reveal(TurnState::only_moved);
        match self.step() {
            Progress::Going(next) => {
                next.lemma_run_only_moves();
                self.lemma_moves_on(next, next.run().0);
            },
            Progress::Stopped(_, _) => {},
        }
    }
}

/// What an answer does by itself, where `progress` is what it leads to.
#[verifier::opaque]
spec fn well_answered(state: TurnState, event: SocketEventModel, progress: Progress) -> bool {
    let (next, step) = match progress {
        Progress::Going(next) => (next, None),
        Progress::Stopped(next, step) => (next, Some(step)),
    };
    let closed = step is Some && super::liveness::closes(step->0);
    &&& closed || moved_on(state, event, next)
    &&& step matches Some(TurnStep::Finished { result, log, pipe_error }) ==> {
        &&& result == ProtocolResult::Close
        &&& ends_as_said(state.turn.stage, event, log, pipe_error)
    }
    &&& said(event) == SocketResult::Error ==> closed
    &&& said(event) == SocketResult::Closed && !is_back_read(state.turn.stage, event) ==> closed
    &&& closed && is_calm(Happening::Answered(event)) ==> {
        ||| state.pipe.frontend_readiness.event.hup
        ||| state.pipe.frontend_status != ConnectionStatus::Normal
        ||| state.pipe.backend_status != ConnectionStatus::Normal
    }
    &&& next.turn.front == state.turn.front || next.turn.front == Ready::none()
}

/// What a read of the frontend leads to, without its turn.
spec fn front_read_leads_to(
    pipe: PipeModel,
    metrics: SessionMetrics,
    bytes: Seq<u8>,
    res: SocketResult,
    after: PipeModel,
    counted: SessionMetrics,
    report: Report,
) -> bool {
    &&& report == Report::going_on() || report == Report::ended() || (res
                == SocketResult::Error && report == Report::failed(AccessError::FrontRead))
    &&& res == SocketResult::Error || res == SocketResult::Closed ==> report.result
                == SessionResult::CloseSession
    &&& report == Report::going_on() ==> {
        &&& after.frontend_readiness.event.readable <==> pipe.frontend_readiness.event.readable
                    && !(bytes.len() == 0 || res == SocketResult::WouldBlock)
        &&& after.frontend_readiness.event.writable
                    == pipe.frontend_readiness.event.writable
        &&& after.frontend_readiness.event.hup == pipe.frontend_readiness.event.hup
        &&& after.frontend_readiness.event.error == pipe.frontend_readiness.event.error
        &&& after.backend_readiness.event == pipe.backend_readiness.event
        &&& after.frontend_status == (if bytes.len() == 0 && res == SocketResult::Continue {
                    pipe.frontend_status.without_reading()
                } else {
                    pipe.frontend_status
                })
        &&& after.backend_status == pipe.backend_status
        &&& after.backend == pipe.backend
        &&& after.frontend_token == pipe.frontend_token
        &&& after.backend_token == pipe.backend_token
        &&& counted.bin == metrics.bin + bytes.len()
        &&& counted.backend_bin == metrics.backend_bin
        &&& counted.service_stopped == metrics.service_stopped
    }
    &&& pipe.frontend_status == ConnectionStatus::Normal && pipe.backend_status
                == ConnectionStatus::Normal && (res == SocketResult::WouldBlock || (res
                == SocketResult::Continue && bytes.len() > 0)) ==> report == Report::going_on()
}

proof fn lemma_front_read_cases(
    pipe: PipeModel,
    metrics: SessionMetrics,
    bytes: Seq<u8>,
    res: SocketResult,
)
    requires
        metrics.bin + bytes.len() <= usize::MAX,
    ensures
        ({
            let (after, counted, report) = pipe.after_front_read(metrics, Some((bytes, res)));
            front_read_leads_to(pipe, metrics, bytes, res, after, counted, report)
        }),
{
}

proof fn lemma_front_read_followed(
    state: TurnState,
    bytes: Seq<u8>,
    res: SocketResult,
    after: PipeModel,
    counted: SessionMetrics,
    report: Report,
)
    requires
        state.turn.stage == Stage::FrontRead,
        front_read_leads_to(state.pipe, state.metrics, bytes, res, after, counted, report),
    ensures
        well_answered(
            state,
            SocketEventModel::Read(bytes, res),
            state.followed_by(after, counted, report, Stage::BackWrite),
        ),
{
    let event = SocketEventModel::Read(bytes, res);
    let progress = state.followed_by(after, counted, report, Stage::BackWrite);
    match progress {
        Progress::Going(next) => {
            assert(report == Report::going_on());
            assert(next.turn.front == state.turn.front && next.turn.back == state.turn.back);
            assert(moved_on(state, event, next));
            assert(well_answered(state, event, progress)) by {
                reveal(well_answered);
            }
        },
        Progress::Stopped(_, asked) => {
            assert(super::liveness::closes(asked));
            assert(well_answered(state, event, progress)) by {
                reveal(well_answered);
            }
        },
    }
}

proof fn lemma_front_read_answered(state: TurnState, bytes: Seq<u8>, res: SocketResult)
    requires
        state.turn.valid(),
        state.turn.stage == Stage::FrontRead,
        state.metrics.bin + bytes.len() <= usize::MAX,
    ensures
        ({
            let (pipe, metrics, report) = state.pipe.after_front_read(
                state.metrics,
                Some((bytes, res)),
            );
            well_answered(
                state,
                SocketEventModel::Read(bytes, res),
                state.followed_by(pipe, metrics, report, Stage::BackWrite),
            )
        }),
{
    lemma_front_read_cases(state.pipe, state.metrics, bytes, res);
    let (pipe, metrics, report) = state.pipe.after_front_read(state.metrics, Some((bytes, res)));
    lemma_front_read_followed(state, bytes, res, pipe, metrics, report);
}

/// What a read of the backend leads to, without its turn.
spec fn back_read_leads_to(
    pipe: PipeModel,
    metrics: SessionMetrics,
    bytes: Seq<u8>,
    res: SocketResult,
    after: PipeModel,
    counted: SessionMetrics,
    report: Report,
) -> bool {
    &&& report == Report::going_on() || report == Report::ended() || (res
                == SocketResult::Error && report == Report::failed(AccessError::BackRead))
    &&& res == SocketResult::Error ==> report.result == SessionResult::CloseSession
    &&& report == Report::going_on() ==> {
        &&& after.backend_readiness.event.readable <==> pipe.backend_readiness.event.readable
                    && !(bytes.len() == 0 || res != SocketResult::Continue)
        &&& after.backend_readiness.event.writable == pipe.backend_readiness.event.writable
        &&& after.backend_readiness.event.hup == pipe.backend_readiness.event.hup
        &&& after.backend_readiness.event.error == pipe.backend_readiness.event.error
        &&& after.frontend_readiness.event == pipe.frontend_readiness.event
        &&& after.backend_status == (if bytes.len() == 0 && res == SocketResult::Closed {
                    pipe.backend_status.without_reading()
                } else {
                    pipe.backend_status
                })
        &&& after.frontend_status == pipe.frontend_status
        &&& after.backend == pipe.backend
        &&& after.frontend_token == pipe.frontend_token
        &&& after.backend_token == pipe.backend_token
        &&& counted.backend_bin == metrics.backend_bin + bytes.len()
        &&& counted.bin == metrics.bin
        &&& counted.service_stopped == metrics.service_stopped
    }
    &&& pipe.frontend_status == ConnectionStatus::Normal && pipe.backend_status
                == ConnectionStatus::Normal && (res == SocketResult::WouldBlock || (res
                == SocketResult::Continue && bytes.len() > 0)) ==> report == Report::going_on()
}

proof fn lemma_back_read_cases(
    pipe: PipeModel,
    metrics: SessionMetrics,
    bytes: Seq<u8>,
    res: SocketResult,
)
    requires
        metrics.backend_bin + bytes.len() <= usize::MAX,
    ensures
        ({
            let (after, counted, report) = pipe.after_back_read(metrics, Some((bytes, res)));
            back_read_leads_to(pipe, metrics, bytes, res, after, counted, report)
        }),
{
}

proof fn lemma_back_read_followed(
    state: TurnState,
    bytes: Seq<u8>,
    res: SocketResult,
    after: PipeModel,
    counted: SessionMetrics,
    report: Report,
)
    requires
        state.turn.stage == Stage::BackRead,
        back_read_leads_to(state.pipe, state.metrics, bytes, res, after, counted, report),
    ensures
        well_answered(
            state,
            SocketEventModel::Read(bytes, res),
            state.followed_by(after, counted, report, Stage::FrontWrite),
        ),
{
    let event = SocketEventModel::Read(bytes, res);
    let progress = state.followed_by(after, counted, report, Stage::FrontWrite);
    match progress {
        Progress::Going(next) => {
            assert(report == Report::going_on());
            assert(next.turn.front == state.turn.front && next.turn.back == state.turn.back);
            assert(moved_on(state, event, next));
            assert(well_answered(state, event, progress)) by {
                reveal(well_answered);
            }
        },
        Progress::Stopped(_, asked) => {
            assert(super::liveness::closes(asked));
            assert(well_answered(state, event, progress)) by {
                reveal(well_answered);
            }
        },
    }
}

proof fn lemma_back_read_answered(state: TurnState, bytes: Seq<u8>, res: SocketResult)
    requires
        state.turn.valid(),
        state.turn.stage == Stage::BackRead,
        state.metrics.backend_bin + bytes.len() <= usize::MAX,
    ensures
        ({
            let (pipe, metrics, report) = state.pipe.after_back_read(
                state.metrics,
                Some((bytes, res)),
            );
            well_answered(
                state,
                SocketEventModel::Read(bytes, res),
                state.followed_by(pipe, metrics, report, Stage::FrontWrite),
            )
        }),
{
    lemma_back_read_cases(state.pipe, state.metrics, bytes, res);
    let (pipe, metrics, report) = state.pipe.after_back_read(state.metrics, Some((bytes, res)));
    lemma_back_read_followed(state, bytes, res, pipe, metrics, report);
}

/// The pipe after bytes went to the frontend without obstacle, before anything follows from it.
spec fn front_written(pipe: PipeModel, n: usize) -> PipeModel {
    PipeModel {
        backend_buffer: pipe.backend_buffer.consumed(n as nat),
        frontend_status: if n == 0 {
            pipe.frontend_status.without_writing()
        } else {
            pipe.frontend_status
        },
        ..pipe
    }
}

proof fn lemma_front_write_cases(pipe: PipeModel, metrics: SessionMetrics, sent: usize, n: usize)
    ensures
        ({
            let middle = front_written(pipe, n);
            let (after, counted, step) = pipe.after_front_write(
                metrics,
                sent,
                n,
                SocketResult::Continue,
            );
            &&& !middle.goes_on() ==> step == WriteStep::Done(Report::ended())
            &&& middle.goes_on() ==> {
                &&& step is More || step == WriteStep::Done(Report::going_on())
                &&& after.frontend_readiness.event == pipe.frontend_readiness.event
                &&& after.backend_readiness.event == pipe.backend_readiness.event
                &&& after.frontend_status == middle.frontend_status
                &&& after.backend_status == pipe.backend_status
                &&& after.backend == pipe.backend
                &&& after.frontend_token == pipe.frontend_token
                &&& after.backend_token == pipe.backend_token
                &&& counted.bin == metrics.bin
                &&& counted.backend_bin == metrics.backend_bin
                &&& counted.service_stopped == metrics.service_stopped
            }
            &&& n > 0 && pipe.frontend_status == ConnectionStatus::Normal && pipe.backend_status
                == ConnectionStatus::Normal ==> middle.goes_on()
        }),
{
}

proof fn lemma_front_write_followed(
    state: TurnState,
    n: usize,
    after: PipeModel,
    counted: SessionMetrics,
    step: WriteStep,
    lives: bool,
)
    requires
        state.turn.stage == Stage::FrontWrite,
        !lives ==> step == WriteStep::Done(Report::ended()),
        lives ==> {
            &&& step is More || step == WriteStep::Done(Report::going_on())
            &&& after.frontend_readiness.event == state.pipe.frontend_readiness.event
            &&& after.backend_readiness.event == state.pipe.backend_readiness.event
            &&& after.frontend_status == (if n == 0 {
                state.pipe.frontend_status.without_writing()
            } else {
                state.pipe.frontend_status
            })
            &&& after.backend_status == state.pipe.backend_status
            &&& after.backend == state.pipe.backend
            &&& after.frontend_token == state.pipe.frontend_token
            &&& after.backend_token == state.pipe.backend_token
            &&& counted.bin == state.metrics.bin
            &&& counted.backend_bin == state.metrics.backend_bin
            &&& counted.service_stopped == state.metrics.service_stopped
        },
        n > 0 && state.pipe.frontend_status == ConnectionStatus::Normal
            && state.pipe.backend_status == ConnectionStatus::Normal ==> lives,
    ensures
        well_answered(
            state,
            SocketEventModel::Wrote(n, SocketResult::Continue),
            state.followed_by_write(after, counted, step, TurnStep::WriteFront, Stage::BackHup),
        ),
{
    let event = SocketEventModel::Wrote(n, SocketResult::Continue);
    let progress = state.followed_by_write(
        after,
        counted,
        step,
        TurnStep::WriteFront,
        Stage::BackHup,
    );
    match progress {
        Progress::Going(next) => {
            assert(lives);
            assert(next.turn.front == state.turn.front && next.turn.back == state.turn.back);
            assert(moved_on(state, event, next));
            assert(well_answered(state, event, progress)) by {
                reveal(well_answered);
            }
        },
        Progress::Stopped(next, asked) => {
            if lives {
                assert(asked == TurnStep::WriteFront);
                assert(next.turn.front == state.turn.front && next.turn.back == state.turn.back);
                assert(moved_on(state, event, next));
                assert(well_answered(state, event, progress)) by {
                    reveal(well_answered);
                }
            } else {
                assert(asked == TurnStep::Finished {
                    result: ProtocolResult::Close,
                    log: AccessLog::Success,
                    pipe_error: false,
                });
                assert(well_answered(state, event, progress)) by {
                    reveal(well_answered);
                }
            }
        },
    }
}

proof fn lemma_front_write_goes_well(state: TurnState, n: usize)
    requires
        state.turn.valid(),
        state.turn.stage == Stage::FrontWrite,
    ensures
        ({
            let (pipe, metrics, step) = state.pipe.after_front_write(
                state.metrics,
                state.turn.sent,
                n,
                SocketResult::Continue,
            );
            well_answered(
                state,
                SocketEventModel::Wrote(n, SocketResult::Continue),
                state.followed_by_write(
                    pipe,
                    metrics,
                    step,
                    TurnStep::WriteFront,
                    Stage::BackHup,
                ),
            )
        }),
{
    lemma_front_write_cases(state.pipe, state.metrics, state.turn.sent, n);
    let (pipe, metrics, step) = state.pipe.after_front_write(
        state.metrics,
        state.turn.sent,
        n,
        SocketResult::Continue,
    );
    lemma_front_write_followed(
        state,
        n,
        pipe,
        metrics,
        step,
        front_written(state.pipe, n).goes_on(),
    );
}

#[verifier::spinoff_prover]
#[verifier::rlimit(40)]
proof fn lemma_front_write_would_block(state: TurnState, n: usize)
    requires
        state.turn.valid(),
        state.turn.stage == Stage::FrontWrite,
    ensures
        ({
            let (pipe, metrics, step) = state.pipe.after_front_write(
                state.metrics,
                state.turn.sent,
                n,
                SocketResult::WouldBlock,
            );
            well_answered(
                state,
                SocketEventModel::Wrote(n, SocketResult::WouldBlock),
                state.followed_by_write(
                    pipe,
                    metrics,
                    step,
                    TurnStep::WriteFront,
                    Stage::BackHup,
                ),
            )
        }),
{
    reveal(well_answered);
}

#[verifier::spinoff_prover]
#[verifier::rlimit(40)]
proof fn lemma_front_write_is_closed(state: TurnState, n: usize)
    requires
        state.turn.valid(),
        state.turn.stage == Stage::FrontWrite,
    ensures
        ({
            let (pipe, metrics, step) = state.pipe.after_front_write(
                state.metrics,
                state.turn.sent,
                n,
                SocketResult::Closed,
            );
            well_answered(
                state,
                SocketEventModel::Wrote(n, SocketResult::Closed),
                state.followed_by_write(
                    pipe,
                    metrics,
                    step,
                    TurnStep::WriteFront,
                    Stage::BackHup,
                ),
            )
        }),
{
    reveal(well_answered);
}

#[verifier::spinoff_prover]
#[verifier::rlimit(40)]
proof fn lemma_front_write_fails(state: TurnState, n: usize)
    requires
        state.turn.valid(),
        state.turn.stage == Stage::FrontWrite,
    ensures
        ({
            let (pipe, metrics, step) = state.pipe.after_front_write(
                state.metrics,
                state.turn.sent,
                n,
                SocketResult::Error,
            );
            well_answered(
                state,
                SocketEventModel::Wrote(n, SocketResult::Error),
                state.followed_by_write(
                    pipe,
                    metrics,
                    step,
                    TurnStep::WriteFront,
                    Stage::BackHup,
                ),
            )
        }),
{
    reveal(well_answered);
}

proof fn lemma_front_write_answered(state: TurnState, n: usize, res: SocketResult)
    requires
        state.turn.valid(),
        state.turn.stage == Stage::FrontWrite,
    ensures
        ({
            let (pipe, metrics, step) = state.pipe.after_front_write(
                state.metrics,
                state.turn.sent,
                n,
                res,
            );
            well_answered(
                state,
                SocketEventModel::Wrote(n, res),
                state.followed_by_write(
                    pipe,
                    metrics,
                    step,
                    TurnStep::WriteFront,
                    Stage::BackHup,
                ),
            )
        }),
{
    match res {
        SocketResult::Continue => {
            lemma_front_write_goes_well(state, n);
        },
        SocketResult::WouldBlock => {
            lemma_front_write_would_block(state, n);
        },
        SocketResult::Closed => {
            lemma_front_write_is_closed(state, n);
        },
        SocketResult::Error => {
            lemma_front_write_fails(state, n);
        },
    }
}

#[verifier::spinoff_prover]
#[verifier::rlimit(40)]
proof fn lemma_back_write_goes_well(state: TurnState, n: usize)
    requires
        state.turn.valid(),
        state.turn.stage == Stage::BackWrite,
    ensures
        ({
            let (pipe, metrics, step) = state.pipe.after_back_write(
                state.metrics,
                state.turn.sent,
                n,
                SocketResult::Continue,
            );
            well_answered(
                state,
                SocketEventModel::Wrote(n, SocketResult::Continue),
                state.followed_by_write(
                    pipe,
                    metrics,
                    step,
                    TurnStep::WriteBack,
                    Stage::BackRead,
                ),
            )
        }),
{
    let middle = PipeModel {
        frontend_buffer: state.pipe.frontend_buffer.consumed(n as nat),
        backend_status: if n == 0 {
            state.pipe.backend_status.without_writing()
        } else {
            state.pipe.backend_status
        },
        ..state.pipe
    };
    let (pipe, metrics, step) = state.pipe.after_back_write(
        state.metrics,
        state.turn.sent,
        n,
        SocketResult::Continue,
    );
    let progress = state.followed_by_write(pipe, metrics, step, TurnStep::WriteBack, Stage::BackRead);
    let event = SocketEventModel::Wrote(n, SocketResult::Continue);
    if middle.frontend_buffer.data.len() == 0 {
        assert(step == WriteStep::Done(Report::going_on()));
        assert(pipe.frontend_readiness.event == state.pipe.frontend_readiness.event);
        assert(pipe.backend_readiness.event == state.pipe.backend_readiness.event);
        assert(pipe.backend_status == middle.backend_status);
        assert(well_answered(state, event, progress)) by {
            reveal(well_answered);
        }
    } else {
        assert(step is More);
        assert(pipe == middle);
        assert(well_answered(state, event, progress)) by {
            reveal(well_answered);
        }
    }
}

#[verifier::spinoff_prover]
#[verifier::rlimit(40)]
proof fn lemma_back_write_would_block(state: TurnState, n: usize)
    requires
        state.turn.valid(),
        state.turn.stage == Stage::BackWrite,
    ensures
        ({
            let (pipe, metrics, step) = state.pipe.after_back_write(
                state.metrics,
                state.turn.sent,
                n,
                SocketResult::WouldBlock,
            );
            well_answered(
                state,
                SocketEventModel::Wrote(n, SocketResult::WouldBlock),
                state.followed_by_write(
                    pipe,
                    metrics,
                    step,
                    TurnStep::WriteBack,
                    Stage::BackRead,
                ),
            )
        }),
{
    reveal(well_answered);
}

#[verifier::spinoff_prover]
#[verifier::rlimit(40)]
proof fn lemma_back_write_is_closed(state: TurnState, n: usize)
    requires
        state.turn.valid(),
        state.turn.stage == Stage::BackWrite,
    ensures
        ({
            let (pipe, metrics, step) = state.pipe.after_back_write(
                state.metrics,
                state.turn.sent,
                n,
                SocketResult::Closed,
            );
            well_answered(
                state,
                SocketEventModel::Wrote(n, SocketResult::Closed),
                state.followed_by_write(
                    pipe,
                    metrics,
                    step,
                    TurnStep::WriteBack,
                    Stage::BackRead,
                ),
            )
        }),
{
    reveal(well_answered);
}

#[verifier::spinoff_prover]
#[verifier::rlimit(40)]
proof fn lemma_back_write_fails(state: TurnState, n: usize)
    requires
        state.turn.valid(),
        state.turn.stage == Stage::BackWrite,
    ensures
        ({
            let (pipe, metrics, step) = state.pipe.after_back_write(
                state.metrics,
                state.turn.sent,
                n,
                SocketResult::Error,
            );
            well_answered(
                state,
                SocketEventModel::Wrote(n, SocketResult::Error),
                state.followed_by_write(
                    pipe,
                    metrics,
                    step,
                    TurnStep::WriteBack,
                    Stage::BackRead,
                ),
            )
        }),
{
    reveal(well_answered);
}

proof fn lemma_back_write_answered(state: TurnState, n: usize, res: SocketResult)
    requires
        state.turn.valid(),
        state.turn.stage == Stage::BackWrite,
    ensures
        ({
            let (pipe, metrics, step) = state.pipe.after_back_write(
                state.metrics,
                state.turn.sent,
                n,
                res,
            );
            well_answered(
                state,
                SocketEventModel::Wrote(n, res),
                state.followed_by_write(
                    pipe,
                    metrics,
                    step,
                    TurnStep::WriteBack,
                    Stage::BackRead,
                ),
            )
        }),
{
    match res {
        SocketResult::Continue => {
            lemma_back_write_goes_well(state, n);
        },
        SocketResult::WouldBlock => {
            lemma_back_write_would_block(state, n);
        },
        SocketResult::Closed => {
            lemma_back_write_is_closed(state, n);
        },
        SocketResult::Error => {
            lemma_back_write_fails(state, n);
        },
    }
}

proof fn lemma_start_answered(state: TurnState)
    ensures
        well_answered(state, SocketEventModel::Start, state.answered(SocketEventModel::Start)),
{
    reveal(TurnState::answered);
    reveal(well_answered);
}

proof fn lemma_answer(state: TurnState, event: SocketEventModel)
    requires
        state.turn.valid(),
        state.accepts(event),
    ensures
        well_answered(state, event, state.answered(event)),
{
    match event {
        SocketEventModel::Start => {
            lemma_start_answered(state);
        },
        SocketEventModel::Read(bytes, res) => {
            if state.turn.stage == Stage::FrontRead {
                lemma_front_read_answered(state, bytes, res);
            } else {
                lemma_back_read_answered(state, bytes, res);
            }
            reveal(TurnState::answered);
        },
        SocketEventModel::Wrote(n, res) => {
            if state.turn.stage == Stage::BackWrite {
                lemma_back_write_answered(state, n, res);
            } else {
                lemma_front_write_answered(state, n, res);
            }
            reveal(TurnState::answered);
        },
    }
}

/// The log fits what the socket said: an error names the socket and what was done with it.
pub open spec fn ends_as_said(
    stage: Stage,
    event: SocketEventModel,
    log: AccessLog,
    pipe_error: bool,
) -> bool {
    &&& pipe_error <==> log is Error
    &&& log matches AccessLog::Error(error) ==> {
        &&& said(event) == SocketResult::Error
        &&& match error {
            AccessError::FrontRead => is_front_read(stage, event),
            AccessError::FrontWrite => is_front_write(stage, event),
            AccessError::BackRead => is_back_read(stage, event),
            AccessError::BackWrite => is_back_write(stage, event),
            _ => false,
        }
    }
    &&& log == AccessLog::Silent ==> event is Start
}

/// What an answer changes of the events, the peers and the counters.
pub open spec fn moved_on(state: TurnState, event: SocketEventModel, next: TurnState) -> bool {
    let stage = state.turn.stage;
    let (res, n) = (said(event), moved(event));
    let front = state.pipe.frontend_readiness.event;
    let back = state.pipe.backend_readiness.event;
    let front_after = next.pipe.frontend_readiness.event;
    let back_after = next.pipe.backend_readiness.event;
    &&& front_after.readable <==> front.readable && !(is_front_read(stage, event) && (n == 0 || res
        == SocketResult::WouldBlock))
    &&& front_after.writable <==> front.writable && !(is_front_write(stage, event) && res
        == SocketResult::WouldBlock)
    &&& back_after.readable <==> back.readable && !(is_back_read(stage, event) && (n == 0 || res
        != SocketResult::Continue))
    &&& back_after.writable <==> back.writable && !(is_back_write(stage, event) && res
        == SocketResult::WouldBlock)
    &&& front_after.hup == front.hup && front_after.error == front.error
    &&& back_after.hup == back.hup && back_after.error == back.error
    &&& sends(next.pipe.frontend_status) <==> sends(state.pipe.frontend_status) && !(is_front_read(
        stage,
        event,
    ) && n == 0 && res == SocketResult::Continue)
    &&& receives(next.pipe.frontend_status) <==> receives(state.pipe.frontend_status) && !(
    is_front_write(stage, event) && n == 0 && res == SocketResult::Continue)
    &&& backend_is_gone(next) ==> backend_is_gone(state)
    &&& next.pipe.backend_status == ConnectionStatus::Closed || !backend_is_gone(state) ==> {
        &&& sends(next.pipe.backend_status) ==> sends(state.pipe.backend_status)
        &&& receives(next.pipe.backend_status) ==> receives(state.pipe.backend_status)
    }
    &&& !backend_is_gone(state) ==> {
        &&& sends(next.pipe.backend_status) <==> sends(state.pipe.backend_status) && !(is_back_read(
            stage,
            event,
        ) && n == 0 && res == SocketResult::Closed)
        &&& receives(next.pipe.backend_status) <==> receives(state.pipe.backend_status) && !(
        is_back_write(stage, event) && n == 0 && res == SocketResult::Continue)
    }
    &&& next.metrics.bin == state.metrics.bin + (if is_front_read(stage, event) {
        n
    } else {
        0
    })
    &&& next.metrics.backend_bin == state.metrics.backend_bin + (if is_back_read(stage, event) {
        n
    } else {
        0
    })
    &&& next.metrics.service_stopped == state.metrics.service_stopped
    &&& next.pipe.backend == state.pipe.backend
    &&& next.pipe.frontend_token == state.pipe.frontend_token
    &&& next.pipe.backend_token == state.pipe.backend_token
}

/// As long as a session goes on, no event is forgotten before its socket is exhausted: a readable
/// socket stays so until a read brings nothing or would block, a writable one until a write would
/// block, and a failure or a hang-up stays. A peer stops to send when a read of its socket brings
/// nothing, and stops to receive when a write moves nothing, and not before. Every byte that was read
/// is counted.
pub proof fn law_nothing_is_forgotten(state: TurnState, event: SocketEventModel)
    requires
        state.turn.valid(),
        state.accepts(event),
    ensures
        ({
            let (end, step) = state.ready(event);
            super::liveness::closes(step) || moved_on(state, event, end)
        }),
{
    lemma_answer(state, event);
    state.lemma_answer_is_valid(event);
    reveal(well_answered);
    if let Progress::Going(next) = state.answered(event) {
        next.lemma_run_only_moves();
        lemma_moved_on_further(state, event, next);
    }
}

proof fn lemma_moved_on_further(state: TurnState, event: SocketEventModel, next: TurnState)
    requires
        moved_on(state, event, next),
    ensures
        next.only_moved_to(next.run().0) ==> moved_on(state, event, next.run().0),
{
    reveal(TurnState::only_moved_to);
}

/// How a turn ends. It is an error of the pipe exactly where the log tells of an error, and this names
/// the socket that failed and what was done with it. Nothing is logged while the session goes on. A
/// socket that fails ends the session, and so does one that is closed, but for the backend that is
/// read to its end.
pub proof fn law_how_turns_end(state: TurnState, event: SocketEventModel)
    requires
        state.turn.valid(),
        state.accepts(event),
    ensures
        ({
            let step = state.ready(event).1;
            &&& step matches TurnStep::Finished { result, log, pipe_error } ==> {
                &&& pipe_error <==> log is Error
                &&& log matches AccessLog::Error(error) ==> {
                    &&& said(event) == SocketResult::Error
                    &&& match error {
                        AccessError::FrontRead => is_front_read(state.turn.stage, event),
                        AccessError::FrontWrite => is_front_write(state.turn.stage, event),
                        AccessError::BackRead => is_back_read(state.turn.stage, event),
                        AccessError::BackWrite => is_back_write(state.turn.stage, event),
                        _ => false,
                    }
                }
                &&& result != ProtocolResult::Close ==> log == AccessLog::Silent
            }
            &&& said(event) == SocketResult::Error ==> super::liveness::closes(step)
            &&& said(event) == SocketResult::Closed && !is_back_read(state.turn.stage, event)
                ==> super::liveness::closes(step)
        }),
{
    lemma_answer(state, event);
    state.lemma_answer_is_valid(event);
    reveal(well_answered);
    if let Progress::Going(next) = state.answered(event) {
        next.lemma_run_only_moves();
    }
}

/// The happening gives no reason to close the session.
pub open spec fn is_calm(happening: Happening) -> bool {
    match happening {
        Happening::Polled(_, events) => !events.hup && !events.error,
        Happening::Answered(SocketEventModel::Start) => true,
        Happening::Answered(event) => said(event) == SocketResult::WouldBlock || (said(event)
            == SocketResult::Continue && moved(event) > 0),
    }
}

/// Both peers are well, and no socket failed or hung up.
pub open spec fn is_well(state: TurnState) -> bool {
    &&& state.pipe.frontend_status == ConnectionStatus::Normal
    &&& state.pipe.backend_status == ConnectionStatus::Normal
    &&& state.pipe.backend
    &&& !state.pipe.frontend_readiness.event.hup
    &&& !state.pipe.frontend_readiness.event.error
    &&& !state.turn.front.error
    &&& !backend_is_gone(state)
}

impl TurnState {
    /// A stage closes a session whose peers are well only where its rounds are used up.
    proof fn lemma_step_closes_not(self)
        requires
            self.turn.valid(),
            is_well(self),
        ensures
            match self.step() {
                Progress::Going(_) => true,
                Progress::Stopped(state, step) => {
                    &&& state.turn.counter == self.turn.counter
                    &&& super::liveness::closes(step) ==> state.turn.counter >= MAX_ROUNDS
                },
            },
    {
        let (pipe, metrics) = (self.pipe, self.metrics);
        match self.turn.stage {
            Stage::Head => {
                reveal(TurnState::step);
            },
            Stage::FrontRead => {
                pipe.lemma_full_reads(metrics);
                let (p, m, report) = pipe.after_front_read(metrics, None);
                assert(self.followed_by(p, m, report, Stage::BackWrite) is Going);
                reveal(TurnState::step);
            },
            Stage::BackRead => {
                pipe.lemma_full_reads(metrics);
                let (p, m, report) = pipe.after_back_read(metrics, None);
                assert(self.followed_by(p, m, report, Stage::FrontWrite) is Going);
                reveal(TurnState::step);
            },
            Stage::BackWrite => {
                pipe.lemma_write_starts(metrics);
                let (p, m, step) = pipe.before_back_write(metrics);
                let ask = TurnStep::WriteBack;
                assert(match self.followed_by_write(p, m, step, ask, Stage::BackRead) {
                    Progress::Going(_) => true,
                    Progress::Stopped(state, asked) => asked == ask && state.turn.counter
                        == self.turn.counter,
                });
                reveal(TurnState::step);
            },
            Stage::FrontWrite => {
                pipe.lemma_write_starts(metrics);
                let (p, m, step) = pipe.before_front_write(metrics);
                let ask = TurnStep::WriteFront;
                assert(match self.followed_by_write(p, m, step, ask, Stage::BackHup) {
                    Progress::Going(_) => true,
                    Progress::Stopped(state, asked) => asked == ask && state.turn.counter
                        == self.turn.counter,
                });
                reveal(TurnState::step);
            },
            Stage::BackHup | Stage::FrontError | Stage::BackError => {
                reveal(TurnState::step);
            },
        }
    }

    pub(crate) proof fn lemma_step_stays_well(self)
        requires
            self.turn.valid(),
            is_well(self),
        ensures
            match self.step() {
                Progress::Going(next) => is_well(next),
                Progress::Stopped(state, step) => {
                    &&& state.turn.counter == self.turn.counter
                    &&& super::liveness::closes(step) ==> state.turn.counter >= MAX_ROUNDS
                    &&& !super::liveness::closes(step) ==> is_well(state)
                },
            },
    {
        self.lemma_step_closes_not();
        self.lemma_step_only_moves();
        reveal(TurnState::only_moved);
        reveal(TurnState::only_moved_to);
    }

    proof fn lemma_run_stays_well(self)
        requires
            self.turn.valid(),
            is_well(self),
        ensures
            ({
                let (state, step) = self.run();
                &&& super::liveness::closes(step) ==> state.turn.counter >= MAX_ROUNDS
                &&& !super::liveness::closes(step) ==> is_well(state)
                &&& state.turn.valid()
            }),
        decreases self.turn.left(),
    {
        self.lemma_step_stays_well();
        self.lemma_step_ends();
        match self.step() {
            Progress::Going(next) => {
                next.lemma_run_stays_well();
            },
            Progress::Stopped(_, _) => {},
        }
    }

    pub(crate) proof fn lemma_answer_stays_well(self, event: SocketEventModel)
        requires
            self.turn.valid(),
            is_well(self),
            self.accepts(event),
            is_calm(Happening::Answered(event)),
        ensures
            ({
                let (state, step) = self.ready(event);
                &&& super::liveness::closes(step) ==> state.turn.counter >= MAX_ROUNDS
                &&& !super::liveness::closes(step) ==> is_well(state)
                &&& state.turn.valid()
            }),
            match self.answered(event) {
                Progress::Going(next) => is_well(next) && next.turn.valid(),
                Progress::Stopped(_, _) => true,
            },
    {
        self.lemma_answer_is_valid(event);
        lemma_answer(self, event);
        assert(match self.answered(event) {
            Progress::Going(next) => is_well(next),
            Progress::Stopped(state, step) => !super::liveness::closes(step) && is_well(state),
        }) by {
            reveal(well_answered);
        }
        match self.answered(event) {
            Progress::Going(next) => {
                next.lemma_run_stays_well();
            },
            Progress::Stopped(_, _) => {},
        }
    }
}

/// A session stays open as long as nothing ends it: from a new pipe with a backend on, while no socket
/// fails, hangs up, is closed or comes to its end, no turn closes it unless it uses up its rounds.
pub proof fn law_nothing_else_ends_a_session(
    start: TurnState,
    happenings: Seq<Happening>,
    event: SocketEventModel,
)
    requires
        start.is_start(),
        start.pipe.backend,
        !start.pipe.frontend_readiness.event.hup,
        !start.pipe.frontend_readiness.event.error,
        start.lives_through(happenings),
        forall|i: int| 0 <= i < happenings.len() ==> is_calm(#[trigger] happenings[i]),
        start.after_all(happenings).expects(event),
        is_calm(Happening::Answered(event)),
    ensures
        ({
            let (end, step) = start.after_all(happenings).ready(event);
            super::liveness::closes(step) ==> end.turn.counter >= MAX_ROUNDS
        }),
{
    lemma_life_stays_well(start, happenings);
    start.after_all(happenings).lemma_answer_stays_well(event);
}

pub(crate) proof fn lemma_life_stays_well(start: TurnState, happenings: Seq<Happening>)
    requires
        start.is_start(),
        start.pipe.backend,
        !start.pipe.frontend_readiness.event.hup,
        !start.pipe.frontend_readiness.event.error,
        start.lives_through(happenings),
        forall|i: int| 0 <= i < happenings.len() ==> is_calm(#[trigger] happenings[i]),
    ensures
        is_well(start.after_all(happenings)),
        start.after_all(happenings).turn.valid(),
    decreases happenings.len(),
{
    if happenings.len() > 0 {
        let first = happenings.drop_last();
        assert forall|i: int| 0 <= i < first.len() implies is_calm(#[trigger] first[i]) by {
            assert(happenings[i] == first[i]);
        }
        lemma_life_stays_well(start, first);
        assert(is_calm(happenings[happenings.len() - 1]));
        if let Happening::Answered(event) = happenings.last() {
            start.after_all(first).lemma_answer_stays_well(event);
        }
    }
}

/// A timer that goes off ends the session, with the socket that it belongs to in the log, and is not
/// waited for again. The other timer stays.
pub proof fn law_timers_end_the_session(pipe: PipeModel, token: Token)
    ensures
        ({
            let (after, report) = pipe.after_timeout(token);
            let is_back = pipe.frontend_token != token && pipe.backend_token == Some(token);
            let forgotten = Some(TimeoutContainer { order: TimerOrder::Forget });
            &&& report.result == SessionResult::CloseSession
            &&& !report.pipe_error
            &&& report.log == AccessLog::Error(AccessError::FrontTimeout) <==> pipe.frontend_token
                == token
            &&& report.log == AccessLog::Error(AccessError::BackTimeout) <==> is_back
            &&& report.log == AccessLog::Error(AccessError::InvalidToken) <==> pipe.frontend_token
                != token && !is_back
            &&& after.frontend_timeout == (if pipe.frontend_token == token
                && pipe.frontend_timeout is Some {
                forgotten
            } else {
                pipe.frontend_timeout
            })
            &&& after.backend_timeout == (if is_back && pipe.backend_timeout is Some {
                forgotten
            } else {
                pipe.backend_timeout
            })
        }),
{
}

/// A peer that sends something starts both timers anew.
pub proof fn law_data_restarts_the_timers(
    pipe: PipeModel,
    metrics: SessionMetrics,
    got: Option<(Seq<u8>, SocketResult)>,
)
    ensures
        ({
            let reset = Some(TimeoutContainer { order: TimerOrder::Reset });
            let front = pipe.after_front_read(metrics, got).0;
            let back = pipe.after_back_read(metrics, got).0;
            &&& front.frontend_timeout is Some <==> pipe.frontend_timeout is Some
            &&& front.backend_timeout is Some <==> pipe.backend_timeout is Some
            &&& pipe.frontend_timeout is Some ==> front.frontend_timeout == reset
                && back.frontend_timeout == reset
            &&& pipe.backend_timeout is Some ==> front.backend_timeout == reset
                && back.backend_timeout == reset
        }),
{
}

/// A backend that hung up leaves a session that goes on exactly as long as something of it is left to
/// be forwarded, and then the pipe listens for what it needs to do so.
pub proof fn law_what_a_backend_left_is_forwarded(pipe: PipeModel)
    ensures
        ({
            let (after, report) = pipe.after_back_hup();
            let left = pipe.backend_buffer.data.len() > 0;
            let more = pipe.backend_readiness.event.readable;
            &&& after.backend_status == ConnectionStatus::Closed
            &&& after.frontend_status == pipe.frontend_status
            &&& after.backend_buffer == pipe.backend_buffer
            &&& report.result == SessionResult::Continue <==> left || more
            &&& report.result == SessionResult::CloseSession ==> report.log == AccessLog::Success
            &&& left ==> after.frontend_readiness.interest.writable
            &&& more ==> after.backend_readiness.interest.readable
        }),
{
}

/// The bytes that were written to the frontend are counted at the end of the step that wrote them, and
/// so are those for the backend, unless they emptied the buffer without any obstacle.
pub proof fn law_written_bytes_are_counted(
    pipe: PipeModel,
    metrics: SessionMetrics,
    sent: usize,
    n: usize,
    res: SocketResult,
)
    requires
        metrics.bout + sent + n <= usize::MAX,
        metrics.backend_bout + sent + n <= usize::MAX,
    ensures
        match pipe.after_front_write(metrics, sent, n, res) {
            (_, counted, WriteStep::More { sent: total }) => total == sent + n && counted
                == metrics,
            (_, counted, WriteStep::Done(_)) => counted.bout == metrics.bout + sent + n
                && counted.bin == metrics.bin && counted.backend_bin == metrics.backend_bin
                && counted.backend_bout == metrics.backend_bout,
        },
        match pipe.after_back_write(metrics, sent, n, res) {
            (_, counted, WriteStep::More { sent: total }) => total == sent + n && counted
                == metrics,
            (_, counted, WriteStep::Done(_)) => counted.backend_bout == metrics.backend_bout + (
            if res == SocketResult::Continue {
                0
            } else {
                sent + n
            }) && counted.bin == metrics.bin && counted.backend_bin == metrics.backend_bin
                && counted.bout == metrics.bout,
        },
{
}

} // verus!
