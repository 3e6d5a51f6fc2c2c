//! One turn of a pipe in the event loop: it reads and writes until there is nothing left to do.
use vstd::prelude::*;

use crate::ready::{Readiness, Ready};
use crate::session::{ProtocolResult, SessionMetrics, SessionResult, SocketResult};

use super::steps::{AccessLog, Report, WriteStep};
use super::{Pipe, PipeModel};

verus! {

/// How often a turn goes through the sockets at most.
pub const MAX_ROUNDS: u32 = 100000;

/// Where in its round a turn is.
#[derive(Debug, Clone, Copy, PartialEq, Eq, Structural)]
pub enum Stage {
    Head,
    FrontRead,
    BackWrite,
    BackRead,
    FrontWrite,
    BackHup,
    FrontError,
    BackError,
}

impl Stage {
    /// How many stages the round still has.
    pub open spec fn left(self) -> int {
        match self {
            Stage::Head => 8,
            Stage::FrontRead => 7,
            Stage::BackWrite => 6,
            Stage::BackRead => 5,
            Stage::FrontWrite => 4,
            Stage::BackHup => 3,
            Stage::FrontError => 2,
            Stage::BackError => 1,
        }
    }
}

/// How far a turn is.
#[derive(Debug, Clone, Copy, PartialEq, Eq, Structural)]
pub struct Turn {
    counter: u32,
    stage: Stage,
    front: Ready,
    back: Ready,
    sent: usize,
}

/// What a [`Turn`] holds.
pub struct TurnModel {
    /// the rounds that are over
    pub counter: nat,
    pub stage: Stage,
    /// what there was to do for the frontend when the round began
    pub front: Ready,
    /// what there was to do for the backend when the round began
    pub back: Ready,
    /// the bytes that were written in the step that is not over
    pub sent: usize,
}

impl View for Turn {
    type V = TurnModel;

    closed spec fn view(&self) -> TurnModel {
        TurnModel {
            counter: self.counter as nat,
            stage: self.stage,
            front: self.front,
            back: self.back,
            sent: self.sent,
        }
    }
}

impl TurnModel {
    pub open spec fn fresh() -> TurnModel {
        TurnModel {
            counter: 0,
            stage: Stage::Head,
            front: Ready::none(),
            back: Ready::none(),
            sent: 0,
        }
    }

    /// A round begins only below the limit.
    pub open spec fn valid(self) -> bool {
        self.counter <= MAX_ROUNDS && (self.stage != Stage::Head ==> self.counter < MAX_ROUNDS)
    }

    /// What is left of the turn at most.
    pub open spec fn left(self) -> int {
        8 * (MAX_ROUNDS - self.counter) + self.stage.left()
    }

    pub open spec fn at(self, stage: Stage) -> TurnModel {
        TurnModel { stage, sent: 0, ..self }
    }
}

/// What the event loop tells a pipe.
#[derive(Debug)]
pub enum SocketEvent {
    /// a new turn begins
    Start,
    /// bytes that were read, and what the socket said
    Read(Vec<u8>, SocketResult),
    /// how many bytes were written, and what the socket said
    Wrote(usize, SocketResult),
}

/// What a [`SocketEvent`] holds.
pub enum SocketEventModel {
    Start,
    Read(Seq<u8>, SocketResult),
    Wrote(usize, SocketResult),
}

impl View for SocketEvent {
    type V = SocketEventModel;

    open spec fn view(&self) -> SocketEventModel {
        match self {
            SocketEvent::Start => SocketEventModel::Start,
            SocketEvent::Read(bytes, res) => SocketEventModel::Read(bytes@, *res),
            SocketEvent::Wrote(n, res) => SocketEventModel::Wrote(*n, *res),
        }
    }
}

/// What a pipe asks of the event loop.
#[derive(Debug, Clone, Copy, PartialEq, Eq, Structural)]
pub enum TurnStep {
    /// read at most `room` bytes from the frontend
    ReadFront { room: usize },
    /// write to the frontend what is there for it
    WriteFront,
    /// read at most `room` bytes from the backend
    ReadBack { room: usize },
    /// write to the backend what is there for it
    WriteBack,
    /// the turn is over
    Finished { result: ProtocolResult, log: AccessLog, pipe_error: bool },
}

/// A pipe in its turn.
#[verifier::ext_equal]
pub struct TurnState {
    pub pipe: PipeModel,
    pub metrics: SessionMetrics,
    pub turn: TurnModel,
}

/// What comes next in a turn.
pub enum Progress {
    Going(TurnState),
    Stopped(TurnState, TurnStep),
}

/// The turn is over, and nothing is written to the access log.
pub open spec fn finished(result: ProtocolResult) -> TurnStep {
    TurnStep::Finished { result, log: AccessLog::Silent, pipe_error: false }
}

impl PipeModel {
    /// The pipe that is not interested in anything.
    pub open spec fn uninterested(self) -> PipeModel {
        PipeModel {
            frontend_readiness: Readiness { interest: Ready::none(), ..self.frontend_readiness },
            backend_readiness: Readiness { interest: Ready::none(), ..self.backend_readiness },
            ..self
        }
    }
}

impl TurnState {
    /// Goes on with `stage`, unless the session is over.
    pub open spec fn followed_by(
        self,
        pipe: PipeModel,
        metrics: SessionMetrics,
        report: Report,
        stage: Stage,
    ) -> Progress {
        if report.result == SessionResult::CloseSession {
            Progress::Stopped(
                TurnState { pipe, metrics, turn: self.turn },
                TurnStep::Finished {
                    result: ProtocolResult::Close,
                    log: report.log,
                    pipe_error: report.pipe_error,
                },
            )
        } else {
            Progress::Going(TurnState { pipe, metrics, turn: self.turn.at(stage) })
        }
    }

    /// Asks for one more write, or goes on with `stage`.
    pub open spec fn followed_by_write(
        self,
        pipe: PipeModel,
        metrics: SessionMetrics,
        step: WriteStep,
        ask: TurnStep,
        stage: Stage,
    ) -> Progress {
        match step {
            WriteStep::More { sent } => Progress::Stopped(
                TurnState { pipe, metrics, turn: TurnModel { sent, ..self.turn } },
                ask,
            ),
            WriteStep::Done(report) => self.followed_by(pipe, metrics, report, stage),
        }
    }

    pub open spec fn skipped_to(self, stage: Stage) -> Progress {
        Progress::Going(TurnState { turn: self.turn.at(stage), ..self })
    }

    /// A new round: what there is to do is what was reported and matters now. There is nothing to do
    /// either where the backend is gone and the frontend cannot take what is left for it.
    pub open spec fn head(self) -> Progress {
        let front = self.pipe.frontend_readiness.pending();
        let back = self.pipe.backend_readiness.pending();
        if self.turn.counter >= MAX_ROUNDS {
            Progress::Stopped(self, finished(ProtocolResult::Close))
        } else if front == Ready::none() && back == Ready::none() {
            Progress::Stopped(self, finished(ProtocolResult::Continue))
        } else if self.pipe.backend_readiness.event.hup
            && self.pipe.frontend_readiness.interest.writable
            && !self.pipe.frontend_readiness.event.writable {
            Progress::Stopped(self, finished(ProtocolResult::Continue))
        } else {
            Progress::Going(
                TurnState {
                    turn: TurnModel { stage: Stage::FrontRead, front, back, sent: 0, ..self.turn },
                    ..self
                },
            )
        }
    }

    /// The next stage of the turn.
    #[verifier::opaque]
    pub open spec fn step(self) -> Progress {
        let (pipe, metrics) = (self.pipe, self.metrics);
        let (front, back) = (self.turn.front, self.turn.back);
        match self.turn.stage {
            Stage::Head => self.head(),
            Stage::FrontRead => if !front.readable {
                self.skipped_to(Stage::BackWrite)
            } else if pipe.frontend_buffer.space() == 0 {
                let (pipe, metrics, report) = pipe.after_front_read(metrics, None);
                self.followed_by(pipe, metrics, report, Stage::BackWrite)
            } else {
                Progress::Stopped(
                    self,
                    TurnStep::ReadFront { room: pipe.frontend_buffer.space() as usize },
                )
            },
            Stage::BackWrite => if !back.writable {
                self.skipped_to(Stage::BackRead)
            } else {
                let (pipe, metrics, step) = pipe.before_back_write(metrics);
                self.followed_by_write(pipe, metrics, step, TurnStep::WriteBack, Stage::BackRead)
            },
            Stage::BackRead => if !back.readable {
                self.skipped_to(Stage::FrontWrite)
            } else if pipe.backend_buffer.space() == 0 || !pipe.backend {
                let (pipe, metrics, report) = pipe.after_back_read(metrics, None);
                self.followed_by(pipe, metrics, report, Stage::FrontWrite)
            } else {
                Progress::Stopped(
                    self,
                    TurnStep::ReadBack { room: pipe.backend_buffer.space() as usize },
                )
            },
            Stage::FrontWrite => if !front.writable {
                self.skipped_to(Stage::BackHup)
            } else {
                let (pipe, metrics, step) = pipe.before_front_write(metrics);
                self.followed_by_write(pipe, metrics, step, TurnStep::WriteFront, Stage::BackHup)
            },
            Stage::BackHup => if !back.hup {
                self.skipped_to(Stage::FrontError)
            } else {
                let (pipe, report) = pipe.after_back_hup();
                self.followed_by(pipe, metrics, report, Stage::FrontError)
            },
            Stage::FrontError => if !front.error {
                self.skipped_to(Stage::BackError)
            } else {
                Progress::Stopped(
                    TurnState { pipe: pipe.uninterested(), ..self },
                    finished(ProtocolResult::Close),
                )
            },
            Stage::BackError => {
                let turn = TurnModel { counter: self.turn.counter + 1, ..self.turn };
                let next = TurnState { turn, ..self };
                if !back.error {
                    next.skipped_to(Stage::Head)
                } else {
                    let (pipe, report) = pipe.after_back_hup();
                    if report.result == SessionResult::CloseSession {
                        self.followed_by(pipe.uninterested(), metrics, report, Stage::Head)
                    } else {
                        next.followed_by(pipe, metrics, report, Stage::Head)
                    }
                }
            },
        }
    }

    /// The turn up to the next thing that it needs of the event loop.
    pub open spec fn run(self) -> (TurnState, TurnStep)
        decreases self.turn.left(),
        when self.turn.valid()
    {
        proof {
            self.lemma_step_ends();
        }
        match self.step() {
            Progress::Going(next) => next.run(),
            Progress::Stopped(state, step) => (state, step),
        }
    }

    /// Every stage leaves less of a turn.
    pub proof fn lemma_step_ends(self)
        requires
            self.turn.valid(),
        ensures
            match self.step() {
                Progress::Going(next) => next.turn.valid() && 0 <= next.turn.left()
                    < self.turn.left(),
                Progress::Stopped(state, _) => state.turn.valid() && state.turn.left()
                    == self.turn.left(),
            },
    {
        reveal(TurnState::step);
        let (pipe, metrics) = (self.pipe, self.metrics);
        match self.turn.stage {
            Stage::Head => {},
            Stage::FrontRead => {
                let (p, m, report) = pipe.after_front_read(metrics, None);
                self.lemma_followed(p, m, report, Stage::BackWrite);
            },
            Stage::BackWrite => {
                let (p, m, step) = pipe.before_back_write(metrics);
                self.lemma_followed_by_write(p, m, step, TurnStep::WriteBack, Stage::BackRead);
            },
            Stage::BackRead => {
                let (p, m, report) = pipe.after_back_read(metrics, None);
                self.lemma_followed(p, m, report, Stage::FrontWrite);
            },
            Stage::FrontWrite => {
                let (p, m, step) = pipe.before_front_write(metrics);
                self.lemma_followed_by_write(p, m, step, TurnStep::WriteFront, Stage::BackHup);
            },
            Stage::BackHup => {
                let (p, report) = pipe.after_back_hup();
                self.lemma_followed(p, metrics, report, Stage::FrontError);
            },
            Stage::FrontError => {},
            Stage::BackError => {},
        }
    }

    proof fn lemma_followed(
        self,
        pipe: PipeModel,
        metrics: SessionMetrics,
        report: Report,
        stage: Stage,
    )
        requires
            self.turn.valid(),
            0 < stage.left() < self.turn.stage.left() < 8,
        ensures
            match self.followed_by(pipe, metrics, report, stage) {
                Progress::Going(next) => next.turn.valid() && 0 <= next.turn.left()
                    < self.turn.left(),
                Progress::Stopped(state, _) => state.turn.valid() && state.turn.left()
                    == self.turn.left(),
            },
    {
    }

    proof fn lemma_followed_by_write(
        self,
        pipe: PipeModel,
        metrics: SessionMetrics,
        step: WriteStep,
        ask: TurnStep,
        stage: Stage,
    )
        requires
            self.turn.valid(),
            0 < stage.left() < self.turn.stage.left() < 8,
        ensures
            match self.followed_by_write(pipe, metrics, step, ask, stage) {
                Progress::Going(next) => next.turn.valid() && 0 <= next.turn.left()
                    < self.turn.left(),
                Progress::Stopped(state, _) => state.turn.valid() && state.turn.left()
                    == self.turn.left(),
            },
    {
    }

    pub proof fn lemma_answer_is_valid(self, event: SocketEventModel)
        requires
            self.turn.valid(),
            self.accepts(event),
        ensures
            match self.answered(event) {
                Progress::Going(next) => next.turn.valid(),
                Progress::Stopped(state, _) => state.turn.valid(),
            },
    {
        reveal(TurnState::answered);
    }

    pub open spec fn continued(progress: Progress) -> (TurnState, TurnStep) {
        match progress {
            Progress::Going(next) => next.run(),
            Progress::Stopped(state, step) => (state, step),
        }
    }

    /// The event is the answer to what the turn asked for.
    pub open spec fn accepts(self, event: SocketEventModel) -> bool {
        let (pipe, metrics, turn) = (self.pipe, self.metrics, self.turn);
        match event {
            SocketEventModel::Start => true,
            SocketEventModel::Read(bytes, _) => match turn.stage {
                Stage::FrontRead => {
                    &&& 0 < pipe.frontend_buffer.space()
                    &&& bytes.len() <= pipe.frontend_buffer.space()
                    &&& metrics.bin + bytes.len() <= usize::MAX
                },
                Stage::BackRead => {
                    &&& 0 < pipe.backend_buffer.space()
                    &&& pipe.backend
                    &&& bytes.len() <= pipe.backend_buffer.space()
                    &&& metrics.backend_bin + bytes.len() <= usize::MAX
                },
                _ => false,
            },
            SocketEventModel::Wrote(n, _) => match turn.stage {
                Stage::BackWrite => metrics.backend_bout + turn.sent + n <= usize::MAX,
                Stage::FrontWrite => metrics.bout + turn.sent + n <= usize::MAX,
                _ => false,
            },
        }
    }

    /// What the answer of the event loop leads to.
    #[verifier::opaque]
    pub open spec fn answered(self, event: SocketEventModel) -> Progress {
        let (pipe, metrics, turn) = (self.pipe, self.metrics, self.turn);
        match event {
            SocketEventModel::Start => {
                let state = TurnState { turn: TurnModel::fresh(), ..self };
                if pipe.frontend_readiness.event.hup {
                    Progress::Stopped(state, finished(ProtocolResult::Close))
                } else {
                    Progress::Going(state)
                }
            },
            SocketEventModel::Read(bytes, res) => if turn.stage == Stage::FrontRead {
                let (pipe, metrics, report) = pipe.after_front_read(metrics, Some((bytes, res)));
                self.followed_by(pipe, metrics, report, Stage::BackWrite)
            } else {
                let (pipe, metrics, report) = pipe.after_back_read(metrics, Some((bytes, res)));
                self.followed_by(pipe, metrics, report, Stage::FrontWrite)
            },
            SocketEventModel::Wrote(n, res) => if turn.stage == Stage::BackWrite {
                let (pipe, metrics, step) = pipe.after_back_write(metrics, turn.sent, n, res);
                self.followed_by_write(pipe, metrics, step, TurnStep::WriteBack, Stage::BackRead)
            } else {
                let (pipe, metrics, step) = pipe.after_front_write(metrics, turn.sent, n, res);
                self.followed_by_write(pipe, metrics, step, TurnStep::WriteFront, Stage::BackHup)
            },
        }
    }

    /// The turn from an answer of the event loop to the next thing that it needs.
    pub open spec fn ready(self, event: SocketEventModel) -> (TurnState, TurnStep) {
        TurnState::continued(self.answered(event))
    }
}

impl Turn {
    pub fn new() -> (r: Turn)
        ensures
            r@ == TurnModel::fresh(),
    {
        Turn {
            counter: 0,
            stage: Stage::Head,
            front: Ready::empty(),
            back: Ready::empty(),
            sent: 0,
        }
    }

    /// Tells whether the rounds ran out: the session gets nowhere, and is given up.
    pub fn is_exhausted(&self) -> (r: bool)
        ensures
            r == (self@.counter >= MAX_ROUNDS),
    {
        self.counter >= MAX_ROUNDS
    }

    fn go_to(&mut self, stage: Stage)
        ensures
            final(self)@ == old(self)@.at(stage),
    {
        self.stage = stage;
        self.sent = 0;
    }

    /// Goes on with `stage`, unless the session is over.
    fn after(&mut self, report: Report, stage: Stage) -> (r: Option<TurnStep>)
        ensures
            report.result == SessionResult::CloseSession ==> final(self)@ == old(self)@ && r
                == Some(
                TurnStep::Finished {
                    result: ProtocolResult::Close,
                    log: report.log,
                    pipe_error: report.pipe_error,
                },
            ),
            report.result != SessionResult::CloseSession ==> final(self)@ == old(self)@.at(stage)
                && r is None,
    {
        match report.result {
            SessionResult::CloseSession => Some(
                TurnStep::Finished {
                    result: ProtocolResult::Close,
                    log: report.log,
                    pipe_error: report.pipe_error,
                },
            ),
            SessionResult::Continue => {
                self.go_to(stage);
                None
            },
        }
    }

    /// Asks for one more write, or goes on with `stage`.
    fn after_write(&mut self, step: WriteStep, ask: TurnStep, stage: Stage) -> (r: Option<TurnStep>)
        ensures
            match step {
                WriteStep::More { sent } => final(self)@ == (TurnModel { sent, ..old(self)@ }) && r
                    == Some(ask),
                WriteStep::Done(report) => {
                    &&& report.result == SessionResult::CloseSession ==> final(self)@ == old(self)@
                        && r == Some(
                        TurnStep::Finished {
                            result: ProtocolResult::Close,
                            log: report.log,
                            pipe_error: report.pipe_error,
                        },
                    )
                    &&& report.result != SessionResult::CloseSession ==> final(self)@ == old(
                        self,
                    )@.at(stage) && r is None
                },
            },
    {
        match step {
            WriteStep::More { sent } => {
                self.sent = sent;
                Some(ask)
            },
            WriteStep::Done(report) => self.after(report, stage),
        }
    }
}

/// Whether `state` and `step` are what `progress` says; there is no step while the turn goes on.
pub open spec fn agrees(progress: Progress, state: TurnState, step: Option<TurnStep>) -> bool {
    match progress {
        Progress::Going(next) => state == next && step is None,
        Progress::Stopped(stopped, asked) => state == stopped && step == Some(asked),
    }
}

impl Pipe {
    /// Drops all interests.
    fn lose_interest(&mut self)
        ensures
            final(self)@ == old(self)@.uninterested(),
    {
        self.frontend_readiness.interest = Ready::empty();
        self.backend_readiness.interest = Ready::empty();
    }

    fn begin_round(&self, turn: &mut Turn) -> (r: Option<TurnStep>)
        requires
            old(turn)@.stage == Stage::Head,
        ensures
            forall|metrics: SessionMetrics| #[trigger]
                agrees(
                    (TurnState { pipe: self@, metrics, turn: old(turn)@ }).head(),
                    TurnState { pipe: self@, metrics, turn: final(turn)@ },
                    r,
                ),
    {
        if turn.counter >= MAX_ROUNDS {
            return Some(
                TurnStep::Finished {
                    result: ProtocolResult::Close,
                    log: AccessLog::Silent,
                    pipe_error: false,
                },
            );
        }
        let front = self.frontend_readiness.filter_interest();
        let back = self.backend_readiness.filter_interest();
        let blocked = self.backend_readiness.event.hup && self.frontend_readiness.interest.writable
            && !self.frontend_readiness.event.writable;
        if front.is_empty() && back.is_empty() || blocked {
            return Some(
                TurnStep::Finished {
                    result: ProtocolResult::Continue,
                    log: AccessLog::Silent,
                    pipe_error: false,
                },
            );
        }
        turn.front = front;
        turn.back = back;
        turn.go_to(Stage::FrontRead);
        None
    }

    /// The next stage of the turn.
    fn advance(&mut self, turn: &mut Turn, metrics: &mut SessionMetrics) -> (r: Option<TurnStep>)
        requires
            old(turn)@.valid(),
        ensures
            agrees(
                (TurnState { pipe: old(self)@, metrics: *old(metrics), turn: old(turn)@ }).step(),
                TurnState { pipe: final(self)@, metrics: *final(metrics), turn: final(turn)@ },
                r,
            ),
    {
        reveal(TurnState::step);
        match turn.stage {
            Stage::Head => self.begin_round(turn),
            Stage::FrontRead => {
                if !turn.front.readable {
                    turn.go_to(Stage::BackWrite);
                    return None;
                }
                let room = self.room_for_frontend();
                if room == 0 {
                    let report = self.readable(metrics, None);
                    return turn.after(report, Stage::BackWrite);
                }
                Some(TurnStep::ReadFront { room })
            },
            Stage::BackWrite => {
                if !turn.back.writable {
                    turn.go_to(Stage::BackRead);
                    return None;
                }
                let step = self.start_backend_writing(metrics);
                turn.after_write(step, TurnStep::WriteBack, Stage::BackRead)
            },
            Stage::BackRead => {
                if !turn.back.readable {
                    turn.go_to(Stage::FrontWrite);
                    return None;
                }
                let room = self.room_for_backend();
                if room == 0 || !self.backend {
                    let report = self.backend_readable(metrics, None);
                    return turn.after(report, Stage::FrontWrite);
                }
                Some(TurnStep::ReadBack { room })
            },
            Stage::FrontWrite => {
                if !turn.front.writable {
                    turn.go_to(Stage::BackHup);
                    return None;
                }
                let step = self.start_writing(metrics);
                turn.after_write(step, TurnStep::WriteFront, Stage::BackHup)
            },
            Stage::BackHup => {
                if !turn.back.hup {
                    turn.go_to(Stage::FrontError);
                    return None;
                }
                let report = self.backend_hup();
                turn.after(report, Stage::FrontError)
            },
            Stage::FrontError => {
                if !turn.front.error {
                    turn.go_to(Stage::BackError);
                    return None;
                }
                self.lose_interest();
                Some(
                    TurnStep::Finished {
                        result: ProtocolResult::Close,
                        log: AccessLog::Silent,
                        pipe_error: false,
                    },
                )
            },
            Stage::BackError => {
                if turn.back.error {
                    let report = self.backend_hup();
                    match report.result {
                        SessionResult::CloseSession => {
                            self.lose_interest();
                            return turn.after(report, Stage::Head);
                        },
                        SessionResult::Continue => {},
                    }
                }
                turn.counter = turn.counter + 1;
                turn.go_to(Stage::Head);
                None
            },
        }
    }

    /// Goes on from an answer of the event loop.
    fn answer(&mut self, turn: &mut Turn, event: SocketEvent, metrics: &mut SessionMetrics) -> (r:
        Option<TurnStep>)
        requires
            old(turn)@.valid(),
            (TurnState { pipe: old(self)@, metrics: *old(metrics), turn: old(turn)@ }).accepts(
                event@,
            ),
        ensures
            agrees(
                (TurnState {
                    pipe: old(self)@,
                    metrics: *old(metrics),
                    turn: old(turn)@,
                }).answered(event@),
                TurnState { pipe: final(self)@, metrics: *final(metrics), turn: final(turn)@ },
                r,
            ),
    {
        reveal(TurnState::answered);
        match event {
            SocketEvent::Start => {
                *turn = Turn::new();
                if self.frontend_readiness.event.hup {
                    return Some(
                        TurnStep::Finished {
                            result: ProtocolResult::Close,
                            log: AccessLog::Silent,
                            pipe_error: false,
                        },
                    );
                }
                None
            },
            SocketEvent::Read(bytes, res) => {
                if turn.stage == Stage::FrontRead {
                    let report = self.readable(metrics, Some((bytes, res)));
                    turn.after(report, Stage::BackWrite)
                } else {
                    let report = self.backend_readable(metrics, Some((bytes, res)));
                    turn.after(report, Stage::FrontWrite)
                }
            },
            SocketEvent::Wrote(n, res) => {
                if turn.stage == Stage::BackWrite {
                    let step = self.backend_writable(metrics, turn.sent, n, res);
                    turn.after_write(step, TurnStep::WriteBack, Stage::BackRead)
                } else {
                    let step = self.writable(metrics, turn.sent, n, res);
                    turn.after_write(step, TurnStep::WriteFront, Stage::BackHup)
                }
            },
        }
    }

    /// Goes on with a turn until it needs something of the event loop or is over. A turn begins with
    /// [`SocketEvent::Start`], and every other event is the answer to what the turn asked for last.
    pub fn ready(&mut self, turn: &mut Turn, event: SocketEvent, metrics: &mut SessionMetrics) -> (r:
        TurnStep)
        requires
            old(turn)@.valid(),
            (TurnState { pipe: old(self)@, metrics: *old(metrics), turn: old(turn)@ }).accepts(
                event@,
            ),
        ensures
            (TurnState {
                pipe: final(self)@,
                metrics: *final(metrics),
                turn: final(turn)@,
            }, r) == (TurnState {
                pipe: old(self)@,
                metrics: *old(metrics),
                turn: old(turn)@,
            }).ready(event@),
            final(turn)@.valid(),
    {
        let ghost start = TurnState { pipe: self@, metrics: *metrics, turn: turn@ };
        let mut asked = self.answer(turn, event, metrics);
        proof {
            start.lemma_answer_is_valid(event@);
        }
        loop
            invariant
                turn@.valid(),
                start == (TurnState {
                    pipe: old(self)@,
                    metrics: *old(metrics),
                    turn: old(turn)@,
                }),
                match asked {
                    None => (TurnState { pipe: self@, metrics: *metrics, turn: turn@ }).run()
                        == start.ready(event@),
                    Some(step) => (TurnState { pipe: self@, metrics: *metrics, turn: turn@ }, step)
                        == start.ready(event@),
                },
            decreases turn@.left() + (if asked is None { 1int } else { 0int }),
        {
            match asked {
                Some(step) => {
                    return step;
                },
                None => {
                    proof {
                        (TurnState { pipe: self@, metrics: *metrics, turn: turn@ }).lemma_step_ends();
                    }
                    asked = self.advance(turn, metrics);
                },
            }
        }
    }
}

} // verus!
