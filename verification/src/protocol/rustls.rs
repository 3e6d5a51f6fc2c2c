//! The TLS handshake at the start of a connection.
use vstd::prelude::*;
use vstd::string::*;

use crate::ready::{Readiness, Ready, Token};
use crate::session::{LogContext, ProtocolResult, SessionState};

pub mod attention;

verus! {

/// How far a TLS connection is.
#[derive(Debug, Clone, Copy, PartialEq, Eq, Structural)]
pub enum TlsState {
    Initial,
    Handshake,
    Established,
    Error,
}

/// What the TLS engine says of itself.
#[derive(Debug, Clone, Copy, PartialEq, Eq, Structural)]
pub struct TlsStatus {
    pub wants_read: bool,
    pub wants_write: bool,
    pub is_handshaking: bool,
}

/// What came of moving bytes between the socket and the TLS engine.
#[derive(Debug, Clone, Copy, PartialEq, Eq, Structural)]
pub enum TlsIo {
    /// there was no byte, and no obstacle
    Nothing,
    /// bytes were moved
    Moved,
    WouldBlock,
    Failed,
}

/// Does the handshake. The socket and the TLS engine belong to the event loop, which moves bytes
/// between them as it is asked to.
#[derive(Debug, Clone, Copy, PartialEq, Eq, Structural)]
pub struct TlsHandshake {
    pub frontend_readiness: Readiness,
    pub frontend_token: Token,
    pub request_id: u128,
}

/// How often a turn goes through the socket at most.
pub const MAX_ROUNDS: u32 = 100000;

/// Where in its round a turn is.
#[derive(Debug, Clone, Copy, PartialEq, Eq, Structural)]
pub enum TlsStage {
    Head,
    /// reading; `can_read` tells whether the socket may still have bytes
    Reading { can_read: bool },
    /// writing; `can_write` tells whether the socket may still take bytes
    Writing { can_write: bool },
    Tail,
}

/// How far a turn is.
#[derive(Debug, Clone, Copy, PartialEq, Eq, Structural)]
pub struct TlsTurn {
    /// the rounds that are over
    pub counter: u32,
    pub stage: TlsStage,
    /// what there was to do when the round began
    pub pending: Ready,
}

/// What the event loop tells.
#[derive(Debug, Clone, Copy, PartialEq, Eq, Structural)]
pub enum TlsEvent {
    /// a new turn begins
    Start,
    /// what came of reading from the socket into the engine
    Read(TlsIo),
    /// what came of writing from the engine to the socket
    Wrote(TlsIo),
    /// whether the engine accepted what it got
    Processed(bool),
}

/// What is asked of the event loop.
#[derive(Debug, Clone, Copy, PartialEq, Eq, Structural)]
pub enum TlsStep {
    /// read from the socket into the engine
    ReadTls,
    /// write from the engine to the socket
    WriteTls,
    /// let the engine process what it got
    Process,
    /// the turn is over
    Finished(ProtocolResult),
}

/// A handshake in its turn.
pub struct TlsRun {
    pub state: TlsHandshake,
    pub turn: TlsTurn,
}

/// What comes next in a turn.
pub enum TlsProgress {
    Going(TlsRun),
    Stopped(TlsRun, TlsStep),
}

/// Only that there is something to read.
pub open spec fn read() -> Ready {
    Ready { readable: true, ..Ready::none() }
}

/// Only that there is room to write.
pub open spec fn write() -> Ready {
    Ready { writable: true, ..Ready::none() }
}

impl TlsStage {
    /// How many stages the round still has.
    pub open spec fn left(self) -> int {
        match self {
            TlsStage::Head => 4,
            TlsStage::Reading { .. } => 3,
            TlsStage::Writing { .. } => 2,
            TlsStage::Tail => 1,
        }
    }
}

impl TlsTurn {
    pub open spec fn fresh() -> TlsTurn {
        TlsTurn { counter: 0, stage: TlsStage::Head, pending: Ready::none() }
    }

    /// A round begins only below the limit.
    pub open spec fn valid(self) -> bool {
        self.counter <= MAX_ROUNDS && (self.stage !is Head ==> self.counter < MAX_ROUNDS)
    }

    /// What is left of the turn at most.
    pub open spec fn left(self) -> int {
        4 * (MAX_ROUNDS - self.counter) + self.stage.left()
    }
}

impl TlsHandshake {
    pub open spec fn fresh(frontend_token: Token, request_id: u128) -> TlsHandshake {
        TlsHandshake {
            frontend_readiness: Readiness {
                interest: Ready { readable: true, writable: false, error: true, hup: true },
                event: Ready::none(),
            },
            frontend_token,
            request_id,
        }
    }

    /// After all was read that could be. The handshake is over once the engine says so and has
    /// nothing more to send.
    pub open spec fn after_reading(self, status: TlsStatus) -> (TlsHandshake, ProtocolResult) {
        let readiness = self.frontend_readiness;
        let readiness = if status.wants_read {
            readiness
        } else {
            readiness.without_interest(read())
        };
        let readiness = if status.wants_write {
            readiness.with_interest(write())
        } else {
            readiness
        };
        if status.is_handshaking || status.wants_write {
            (
                TlsHandshake { frontend_readiness: readiness, ..self },
                ProtocolResult::Continue,
            )
        } else {
            let readiness = readiness.with_interest(read()).with_interest(write());
            (
                TlsHandshake {
                    frontend_readiness: Readiness {
                        event: readiness.event.joined(read()),
                        ..readiness
                    },
                    ..self
                },
                ProtocolResult::Upgrade,
            )
        }
    }

    /// After all was written that could be. The handshake is over once the engine says so.
    pub open spec fn after_writing(self, status: TlsStatus) -> (TlsHandshake, ProtocolResult) {
        let readiness = self.frontend_readiness;
        let readiness = if status.wants_write {
            readiness
        } else {
            readiness.without_interest(write())
        };
        let readiness = if status.wants_read {
            readiness.with_interest(read())
        } else {
            readiness
        };
        if status.is_handshaking {
            (
                TlsHandshake { frontend_readiness: readiness, ..self },
                ProtocolResult::Continue,
            )
        } else if status.wants_read {
            (
                TlsHandshake { frontend_readiness: readiness, ..self },
                ProtocolResult::Upgrade,
            )
        } else {
            (
                TlsHandshake {
                    frontend_readiness: readiness.with_interest(write()).with_interest(read()),
                    ..self
                },
                ProtocolResult::Upgrade,
            )
        }
    }
}

impl TlsRun {
    pub open spec fn at(self, stage: TlsStage) -> TlsRun {
        TlsRun { turn: TlsTurn { stage, ..self.turn }, ..self }
    }

    /// Goes on with `stage`, unless the result says that the turn is over.
    pub open spec fn followed_by(
        self,
        state: TlsHandshake,
        result: ProtocolResult,
        stage: TlsStage,
    ) -> TlsProgress {
        if result != ProtocolResult::Continue {
            TlsProgress::Stopped(TlsRun { state, ..self }, TlsStep::Finished(result))
        } else {
            TlsProgress::Going(TlsRun { state, ..self }.at(stage))
        }
    }

    /// The next stage of the turn.
    pub open spec fn step(self, status: TlsStatus) -> TlsProgress {
        let pending = self.state.frontend_readiness.pending();
        match self.turn.stage {
            TlsStage::Head => if self.turn.counter >= MAX_ROUNDS {
                TlsProgress::Stopped(self, TlsStep::Finished(ProtocolResult::Close))
            } else if pending == Ready::none() {
                TlsProgress::Stopped(self, TlsStep::Finished(ProtocolResult::Continue))
            } else {
                TlsProgress::Going(
                    TlsRun {
                        turn: TlsTurn {
                            stage: TlsStage::Reading { can_read: true },
                            pending,
                            ..self.turn
                        },
                        ..self
                    },
                )
            },
            TlsStage::Reading { can_read } => if !self.turn.pending.readable {
                TlsProgress::Going(self.at(TlsStage::Writing { can_write: true }))
            } else if status.wants_read && can_read {
                TlsProgress::Stopped(self, TlsStep::ReadTls)
            } else {
                let (state, result) = self.state.after_reading(status);
                self.followed_by(state, result, TlsStage::Writing { can_write: true })
            },
            TlsStage::Writing { can_write } => if !self.turn.pending.writable {
                TlsProgress::Going(self.at(TlsStage::Tail))
            } else if status.wants_write && can_write {
                TlsProgress::Stopped(self, TlsStep::WriteTls)
            } else {
                let (state, result) = self.state.after_writing(status);
                self.followed_by(state, result, TlsStage::Tail)
            },
            TlsStage::Tail => if self.turn.pending.error {
                TlsProgress::Stopped(
                    TlsRun {
                        state: TlsHandshake {
                            frontend_readiness: Readiness {
                                interest: Ready::none(),
                                ..self.state.frontend_readiness
                            },
                            ..self.state
                        },
                        ..self
                    },
                    TlsStep::Finished(ProtocolResult::Close),
                )
            } else {
                TlsProgress::Going(
                    TlsRun {
                        turn: TlsTurn {
                            counter: (self.turn.counter + 1) as u32,
                            stage: TlsStage::Head,
                            ..self.turn
                        },
                        ..self
                    },
                )
            },
        }
    }

    /// The turn up to the next thing that it needs of the event loop.
    pub open spec fn run(self, status: TlsStatus) -> (TlsRun, TlsStep)
        decreases self.turn.left(),
        when self.turn.valid()
    {
        match self.step(status) {
            TlsProgress::Going(next) => next.run(status),
            TlsProgress::Stopped(run, step) => (run, step),
        }
    }

    /// The event is the answer to what the turn asked for.
    pub open spec fn accepts(self, event: TlsEvent) -> bool {
        match event {
            TlsEvent::Start => true,
            TlsEvent::Read(_) => self.turn.stage is Reading,
            TlsEvent::Wrote(_) => self.turn.stage is Writing,
            TlsEvent::Processed(_) => self.turn.stage is Reading || self.turn.stage is Writing,
        }
    }

    /// What the answer of the event loop leads to. The engine processes what it got after every read
    /// and write that did not end the handshake. A read that brings nothing ends it.
    pub open spec fn answered(self, event: TlsEvent) -> TlsProgress {
        let close = TlsProgress::Stopped(self, TlsStep::Finished(ProtocolResult::Close));
        let readiness = self.state.frontend_readiness;
        match event {
            TlsEvent::Start => {
                let run = TlsRun { turn: TlsTurn::fresh(), ..self };
                if readiness.event.hup {
                    TlsProgress::Stopped(run, TlsStep::Finished(ProtocolResult::Close))
                } else {
                    TlsProgress::Going(run)
                }
            },
            TlsEvent::Read(TlsIo::Moved) => TlsProgress::Stopped(self, TlsStep::Process),
            TlsEvent::Read(TlsIo::WouldBlock) => TlsProgress::Stopped(
                TlsRun {
                    state: TlsHandshake {
                        frontend_readiness: readiness.without_event(read()),
                        ..self.state
                    },
                    ..self
                }.at(TlsStage::Reading { can_read: false }),
                TlsStep::Process,
            ),
            TlsEvent::Read(_) => close,
            TlsEvent::Wrote(TlsIo::WouldBlock) => TlsProgress::Stopped(
                TlsRun {
                    state: TlsHandshake {
                        frontend_readiness: readiness.without_event(write()),
                        ..self.state
                    },
                    ..self
                }.at(TlsStage::Writing { can_write: false }),
                TlsStep::Process,
            ),
            TlsEvent::Wrote(TlsIo::Failed) => close,
            TlsEvent::Wrote(_) => TlsProgress::Stopped(self, TlsStep::Process),
            TlsEvent::Processed(true) => TlsProgress::Going(self),
            TlsEvent::Processed(false) => close,
        }
    }

    /// The turn from an answer of the event loop to the next thing that it needs.
    pub open spec fn ready(self, event: TlsEvent, status: TlsStatus) -> (TlsRun, TlsStep) {
        match self.answered(event) {
            TlsProgress::Going(next) => next.run(status),
            TlsProgress::Stopped(run, step) => (run, step),
        }
    }
}

/// Whether `run` and `step` are what `progress` says; there is no step while the turn goes on.
pub open spec fn agrees(progress: TlsProgress, run: TlsRun, step: Option<TlsStep>) -> bool {
    match progress {
        TlsProgress::Going(next) => run == next && step is None,
        TlsProgress::Stopped(stopped, asked) => run == stopped && step == Some(asked),
    }
}

impl TlsTurn {
    pub fn new() -> (r: TlsTurn)
        ensures
            r == TlsTurn::fresh(),
    {
        TlsTurn { counter: 0, stage: TlsStage::Head, pending: Ready::empty() }
    }

    /// Tells whether the rounds ran out: the session gets nowhere, and is given up.
    pub fn is_exhausted(&self) -> (r: bool)
        ensures
            r == (self.counter >= MAX_ROUNDS),
    {
        self.counter >= MAX_ROUNDS
    }
}

impl TlsHandshake {
    pub fn new(frontend_token: Token, request_id: u128) -> (r: TlsHandshake)
        ensures
            r == TlsHandshake::fresh(frontend_token, request_id),
    {
        TlsHandshake {
            frontend_readiness: Readiness {
                interest: Ready::readable().union(Ready::hup()).union(Ready::error()),
                event: Ready::empty(),
            },
            frontend_token,
            request_id,
        }
    }

    /// Ends a step of reading. `status` is what the engine says after it.
    pub fn readable(&mut self, status: TlsStatus) -> (r: ProtocolResult)
        ensures
            (*final(self), r) == old(self).after_reading(status),
    {
        if !status.wants_read {
            self.frontend_readiness = self.frontend_readiness.bored_by(Ready::readable());
        }
        if status.wants_write {
            self.frontend_readiness = self.frontend_readiness.interested_in(Ready::writable());
        }
        if status.is_handshaking || status.wants_write {
            return ProtocolResult::Continue;
        }
        self.frontend_readiness = self.frontend_readiness.interested_in(Ready::readable());
        self.frontend_readiness = self.frontend_readiness.interested_in(Ready::writable());
        self.frontend_readiness.event = self.frontend_readiness.event.union(Ready::readable());
        ProtocolResult::Upgrade
    }

    /// Ends a step of writing. `status` is what the engine says after it.
    pub fn writable(&mut self, status: TlsStatus) -> (r: ProtocolResult)
        ensures
            (*final(self), r) == old(self).after_writing(status),
    {
        if !status.wants_write {
            self.frontend_readiness = self.frontend_readiness.bored_by(Ready::writable());
        }
        if status.wants_read {
            self.frontend_readiness = self.frontend_readiness.interested_in(Ready::readable());
        }
        if status.is_handshaking {
            return ProtocolResult::Continue;
        }
        if !status.wants_read {
            self.frontend_readiness = self.frontend_readiness.interested_in(Ready::writable());
            self.frontend_readiness = self.frontend_readiness.interested_in(Ready::readable());
        }
        ProtocolResult::Upgrade
    }

    pub fn log_context(&self) -> (r: LogContext)
        ensures
            r.request_id == self.request_id,
            r.cluster_id is None,
            r.backend_id is None,
    {
        LogContext { request_id: self.request_id, cluster_id: None, backend_id: None }
    }

    /// The next stage of the turn.
    fn advance(&mut self, turn: &mut TlsTurn, status: TlsStatus) -> (r: Option<TlsStep>)
        requires
            old(turn).valid(),
        ensures
            agrees(
                (TlsRun { state: *old(self), turn: *old(turn) }).step(status),
                TlsRun { state: *final(self), turn: *final(turn) },
                r,
            ),
    {
        match turn.stage {
            TlsStage::Head => {
                let pending = self.frontend_readiness.filter_interest();
                if turn.counter >= MAX_ROUNDS {
                    return Some(TlsStep::Finished(ProtocolResult::Close));
                }
                if pending.is_empty() {
                    return Some(TlsStep::Finished(ProtocolResult::Continue));
                }
                turn.pending = pending;
                turn.stage = TlsStage::Reading { can_read: true };
                None
            },
            TlsStage::Reading { can_read } => {
                if turn.pending.readable {
                    if status.wants_read && can_read {
                        return Some(TlsStep::ReadTls);
                    }
                    let result = self.readable(status);
                    if result != ProtocolResult::Continue {
                        return Some(TlsStep::Finished(result));
                    }
                }
                turn.stage = TlsStage::Writing { can_write: true };
                None
            },
            TlsStage::Writing { can_write } => {
                if turn.pending.writable {
                    if status.wants_write && can_write {
                        return Some(TlsStep::WriteTls);
                    }
                    let result = self.writable(status);
                    if result != ProtocolResult::Continue {
                        return Some(TlsStep::Finished(result));
                    }
                }
                turn.stage = TlsStage::Tail;
                None
            },
            TlsStage::Tail => {
                if turn.pending.error {
                    self.frontend_readiness.interest = Ready::empty();
                    return Some(TlsStep::Finished(ProtocolResult::Close));
                }
                turn.counter = turn.counter + 1;
                turn.stage = TlsStage::Head;
                None
            },
        }
    }

    /// Goes on from an answer of the event loop.
    fn answer(&mut self, turn: &mut TlsTurn, event: TlsEvent) -> (r: Option<TlsStep>)
        requires
            old(turn).valid(),
            (TlsRun { state: *old(self), turn: *old(turn) }).accepts(event),
        ensures
            agrees(
                (TlsRun { state: *old(self), turn: *old(turn) }).answered(event),
                TlsRun { state: *final(self), turn: *final(turn) },
                r,
            ),
            final(turn).valid(),
    {
        match event {
            TlsEvent::Start => {
                *turn = TlsTurn::new();
                if self.frontend_readiness.event.hup {
                    return Some(TlsStep::Finished(ProtocolResult::Close));
                }
                None
            },
            TlsEvent::Read(io) => match io {
                TlsIo::Moved => Some(TlsStep::Process),
                TlsIo::WouldBlock => {
                    self.frontend_readiness = self.frontend_readiness.done_with(Ready::readable());
                    turn.stage = TlsStage::Reading { can_read: false };
                    Some(TlsStep::Process)
                },
                _ => Some(TlsStep::Finished(ProtocolResult::Close)),
            },
            TlsEvent::Wrote(io) => match io {
                TlsIo::WouldBlock => {
                    self.frontend_readiness = self.frontend_readiness.done_with(Ready::writable());
                    turn.stage = TlsStage::Writing { can_write: false };
                    Some(TlsStep::Process)
                },
                TlsIo::Failed => Some(TlsStep::Finished(ProtocolResult::Close)),
                _ => Some(TlsStep::Process),
            },
            TlsEvent::Processed(accepted) => {
                if accepted {
                    None
                } else {
                    Some(TlsStep::Finished(ProtocolResult::Close))
                }
            },
        }
    }

    /// Goes on with a turn until it needs something of the event loop or is over. A turn begins with
    /// [`TlsEvent::Start`], and every other event is the answer to what the turn asked for last.
    /// `status` is what the engine says of itself after the event.
    pub fn ready(&mut self, turn: &mut TlsTurn, event: TlsEvent, status: TlsStatus) -> (r: TlsStep)
        requires
            old(turn).valid(),
            (TlsRun { state: *old(self), turn: *old(turn) }).accepts(event),
        ensures
            (TlsRun { state: *final(self), turn: *final(turn) }, r) == (TlsRun {
                state: *old(self),
                turn: *old(turn),
            }).ready(event, status),
            final(turn).valid(),
    {
        let ghost start = TlsRun { state: *self, turn: *turn };
        let mut asked = self.answer(turn, event);
        loop
            invariant
                turn.valid(),
                start == (TlsRun { state: *old(self), turn: *old(turn) }),
                match asked {
                    None => (TlsRun { state: *self, turn: *turn }).run(status) == start.ready(
                        event,
                        status,
                    ),
                    Some(step) => (TlsRun { state: *self, turn: *turn }, step) == start.ready(
                        event,
                        status,
                    ),
                },
            decreases turn.left() + (if asked is None {
                1int
            } else {
                0int
            }),
        {
            match asked {
                Some(step) => {
                    return step;
                },
                None => {
                    asked = self.advance(turn, status);
                },
            }
        }
    }

    /// Takes note of the events of a token.
    pub fn process_events(&mut self, token: Token, events: Ready)
        ensures
            *final(self) == if old(self).frontend_token == token {
                TlsHandshake {
                    frontend_readiness: Readiness {
                        event: old(self).frontend_readiness.event.joined(events),
                        ..old(self).frontend_readiness
                    },
                    ..*old(self)
                }
            } else {
                *old(self)
            },
    {
        if self.frontend_token == token {
            self.frontend_readiness.event = self.frontend_readiness.event.union(events);
        }
    }
}

impl SessionState for TlsHandshake {
    open spec fn session_tokens(&self) -> Seq<Token> {
        seq![self.frontend_token]
    }

    open spec fn events(&self, token: Token) -> Ready {
        if self.frontend_token == token {
            self.frontend_readiness.event
        } else {
            Ready::none()
        }
    }

    fn update_readiness(&mut self, token: Token, events: Ready) {
        proof {
            assert(self.session_tokens()[0] == self.frontend_token);
        }
        self.process_events(token, events);
    }

    fn tokens(&self) -> (r: Vec<Token>) {
        let mut r: Vec<Token> = Vec::new();
        r.push(self.frontend_token);
        proof {
            assert(r@ =~= self.session_tokens());
        }
        r
    }
}

/// A handshake is handed over only where the engine says that it is over.
pub proof fn law_upgrade_follows_the_handshake(state: TlsHandshake, status: TlsStatus)
    ensures
        state.after_reading(status).1 == ProtocolResult::Upgrade ==> !status.is_handshaking
            && !status.wants_write,
        state.after_writing(status).1 == ProtocolResult::Upgrade <==> !status.is_handshaking,
        state.after_reading(status).1 != ProtocolResult::Close,
        state.after_writing(status).1 != ProtocolResult::Close,
{
}

/// In a whole turn a handshake is handed over only where the engine says that it is over.
pub proof fn law_turn_upgrades_after_the_handshake(run: TlsRun, event: TlsEvent, status: TlsStatus)
    requires
        run.turn.valid(),
        run.accepts(event),
    ensures
        run.ready(event, status).1 == TlsStep::Finished(ProtocolResult::Upgrade)
            ==> !status.is_handshaking,
{
    match run.answered(event) {
        TlsProgress::Going(next) => {
            lemma_run_upgrades_after_the_handshake(next, status);
        },
        TlsProgress::Stopped(_, _) => {},
    }
}

proof fn lemma_run_upgrades_after_the_handshake(run: TlsRun, status: TlsStatus)
    requires
        run.turn.valid(),
    ensures
        run.run(status).1 == TlsStep::Finished(ProtocolResult::Upgrade) ==> !status.is_handshaking,
    decreases run.turn.left(),
{
    match run.step(status) {
        TlsProgress::Going(next) => {
            lemma_run_upgrades_after_the_handshake(next, status);
        },
        TlsProgress::Stopped(_, _) => {},
    }
}

/// A turn whose rounds ran out closes the session.
pub proof fn law_exhausted_turn_closes(run: TlsRun, event: TlsEvent, status: TlsStatus)
    requires
        run.turn.valid(),
        run.accepts(event),
    ensures
        ({
            let (after, step) = run.ready(event, status);
            after.turn.counter >= MAX_ROUNDS ==> step == TlsStep::Finished(ProtocolResult::Close)
        }),
{
    match run.answered(event) {
        TlsProgress::Going(next) => {
            lemma_exhausted_run_closes(next, status);
        },
        TlsProgress::Stopped(_, _) => {},
    }
}

proof fn lemma_exhausted_run_closes(run: TlsRun, status: TlsStatus)
    requires
        run.turn.valid(),
    ensures
        ({
            let (after, step) = run.run(status);
            after.turn.counter >= MAX_ROUNDS ==> step == TlsStep::Finished(ProtocolResult::Close)
        }),
    decreases run.turn.left(),
{
    match run.step(status) {
        TlsProgress::Going(next) => {
            lemma_exhausted_run_closes(next, status);
        },
        TlsProgress::Stopped(_, _) => {},
    }
}

} // verus!
