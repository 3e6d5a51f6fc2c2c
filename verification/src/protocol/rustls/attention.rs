//! A handshake hears of what it can use, and ends when the engine is done.
use vstd::prelude::*;

use crate::ready::Token;
use crate::session::ProtocolResult;

use super::{TlsEvent, TlsHandshake, TlsIo, TlsProgress, TlsRun, TlsStage, TlsStatus, TlsStep};

verus! {

/// The socket has bytes, and the handshake wants to hear of them.
pub open spec fn may_read(state: TlsHandshake) -> bool {
    state.frontend_readiness.interest.readable && state.frontend_readiness.event.readable
}

/// The socket takes bytes, and the handshake wants to hear of it.
pub open spec fn may_write(state: TlsHandshake) -> bool {
    state.frontend_readiness.interest.writable && state.frontend_readiness.event.writable
}

/// The handshake is not over, and wants to hear of all that brings it on.
pub open spec fn is_attentive(state: TlsHandshake, status: TlsStatus) -> bool {
    &&& status.wants_read ==> state.frontend_readiness.interest.readable
    &&& status.wants_write ==> state.frontend_readiness.interest.writable
    &&& status.is_handshaking || status.wants_write
    &&& state.frontend_readiness.interest.error
    &&& state.frontend_readiness.interest.hup
}

/// The engine has a use for all that the socket offers.
pub open spec fn is_settled(state: TlsHandshake, status: TlsStatus) -> bool {
    &&& may_read(state) ==> status.wants_read
    &&& may_write(state) ==> status.wants_write
}

/// A turn between two answers of the event loop.
pub open spec fn is_awake(run: TlsRun, status: TlsStatus) -> bool {
    let readiness = run.state.frontend_readiness;
    let pending = run.turn.pending;
    &&& run.turn.valid()
    &&& readiness.interest.error
    &&& readiness.interest.hup
    &&& !readiness.event.hup
    &&& match run.turn.stage {
        TlsStage::Head => is_attentive(run.state, status),
        TlsStage::Reading { can_read } => {
            &&& pending.readable ==> readiness.interest.readable && (!can_read
                ==> !readiness.event.readable)
            &&& pending.writable ==> readiness.interest.writable
            &&& !pending.readable ==> !may_read(run.state) && is_attentive(run.state, status)
            &&& !pending.writable ==> !may_write(run.state)
        },
        TlsStage::Writing { can_write } => {
            &&& pending.writable ==> readiness.interest.writable && (!can_write
                ==> !readiness.event.writable)
            &&& !may_read(run.state)
            &&& !pending.writable ==> is_attentive(run.state, status) && is_settled(
                run.state,
                status,
            )
        },
        TlsStage::Tail => is_attentive(run.state, status) && is_settled(run.state, status),
    }
}

/// How many rounds can end before the event loop is asked for something.
spec fn rounds_left(run: TlsRun, status: TlsStatus) -> int {
    let pending = run.turn.pending;
    let stays = match run.turn.stage {
        TlsStage::Head => is_settled(run.state, status),
        TlsStage::Reading { can_read } => if pending.readable {
            status.wants_read && can_read
        } else {
            pending.writable && status.wants_write
        },
        TlsStage::Writing { can_write } => pending.writable && status.wants_write && can_write,
        TlsStage::Tail => false,
    };
    if stays || (run.turn.stage !is Head && pending.error) {
        0
    } else {
        1
    }
}

/// What a turn has come to once it needs the event loop.
spec fn is_well_stopped(before: TlsRun, run: TlsRun, step: TlsStep, status: TlsStatus) -> bool {
    &&& run.turn.valid()
    &&& run.state.frontend_token == before.state.frontend_token
    &&& run.state.request_id == before.state.request_id
    &&& match step {
        TlsStep::ReadTls => {
            &&& status.wants_read
            &&& run.turn.stage == TlsStage::Reading { can_read: true }
            &&& run.turn.pending.readable
            &&& is_awake(run, status)
            &&& run.state.frontend_readiness.event == before.state.frontend_readiness.event
        },
        TlsStep::WriteTls => {
            &&& status.wants_write
            &&& run.turn.stage == TlsStage::Writing { can_write: true }
            &&& run.turn.pending.writable
            &&& is_awake(run, status)
            &&& run.state.frontend_readiness.event == before.state.frontend_readiness.event
        },
        TlsStep::Process => false,
        TlsStep::Finished(result) => match result {
            ProtocolResult::Continue => {
                &&& is_attentive(run.state, status)
                &&& !may_read(run.state)
                &&& !may_write(run.state)
                &&& !run.state.frontend_readiness.event.error
                &&& !run.state.frontend_readiness.event.hup
                &&& run.state.frontend_readiness.event == before.state.frontend_readiness.event
            },
            ProtocolResult::Upgrade => {
                &&& !status.is_handshaking
                &&& run.state.frontend_readiness.interest.readable
                &&& run.state.frontend_readiness.interest.error
                &&& run.state.frontend_readiness.interest.hup
                &&& status.wants_write || !status.wants_read
                    ==> run.state.frontend_readiness.interest.writable
                &&& run.state.frontend_readiness.event.writable
                    == before.state.frontend_readiness.event.writable
                &&& run.turn.stage is Writing ==> run.state.frontend_readiness.event
                    == before.state.frontend_readiness.event
                &&& !(run.turn.stage is Writing) ==> !status.wants_write
                    && run.state.frontend_readiness.event.readable
                    && run.state.frontend_readiness.interest.writable
            },
            ProtocolResult::Close => run.turn.counter >= super::MAX_ROUNDS || (
            run.turn.pending.error && before.state.frontend_readiness.event
                == run.state.frontend_readiness.event),
        },
    }
}

proof fn lemma_step_stays_awake(run: TlsRun, status: TlsStatus)
    requires
        is_awake(run, status),
    ensures
        match run.step(status) {
            TlsProgress::Going(next) => {
                &&& is_awake(next, status)
                &&& next.turn.counter + rounds_left(next, status) <= run.turn.counter
                    + rounds_left(run, status)
                &&& next.state.frontend_readiness.event == run.state.frontend_readiness.event
                &&& next.state.frontend_token == run.state.frontend_token
                &&& next.state.request_id == run.state.request_id
                &&& next.turn.left() < run.turn.left()
            },
            TlsProgress::Stopped(after, step) => {
                &&& is_well_stopped(run, after, step, status)
                &&& after.turn.counter == run.turn.counter
            },
        },
{
}

proof fn lemma_run_stays_awake(run: TlsRun, status: TlsStatus)
    requires
        is_awake(run, status),
    ensures
        ({
            let (after, step) = run.run(status);
            &&& is_well_stopped(run, after, step, status)
            &&& after.turn.counter <= run.turn.counter + rounds_left(run, status)
        }),
    decreases run.turn.left(),
{
    lemma_step_stays_awake(run, status);
    match run.step(status) {
        TlsProgress::Going(next) => {
            lemma_run_stays_awake(next, status);
        },
        TlsProgress::Stopped(_, _) => {},
    }
}

/// A new handshake wants to hear of what the client sends, before the engine has anything to say.
pub proof fn law_new_handshake_is_attentive(token: Token, request_id: u128, status: TlsStatus)
    requires
        status.is_handshaking,
        !status.wants_write,
    ensures
        is_attentive(TlsHandshake::fresh(token, request_id), status),
        !TlsHandshake::fresh(token, request_id).frontend_readiness.event.hup,
{
}

/// A handshake never stalls and never ends too early.
///
/// A turn begins with all that the engine waits for being heard of, or the client has gone, and the
/// session is closed. The event loop is asked for nothing that the engine has no use for. A turn
/// leaves the handshake alone only where it is not over, where the socket offers nothing that the
/// engine could use, and where the handshake wants to hear of all that it could; so that the next turn
/// begins as this one did. It is handed over once the engine is done, and hears of what the client
/// sends from then on; what the engine may have read beyond the handshake is looked at at once.
pub proof fn law_handshake_never_stalls(run: TlsRun, event: TlsEvent, status: TlsStatus)
    requires
        run.accepts(event),
        event is Start ==> is_attentive(run.state, status) && run.turn.valid(),
        event !is Start ==> is_awake(run, status),
        event is Processed ==> (run.turn.stage is Reading && run.turn.pending.readable) || (
        run.turn.stage is Writing && run.turn.pending.writable),
        event is Read ==> run.turn.pending.readable,
        event is Wrote ==> run.turn.pending.writable,
    ensures
        ({
            let (after, step) = run.ready(event, status);
            let before = run.state.frontend_readiness;
            let readiness = after.state.frontend_readiness;
            &&& after.state.frontend_token == run.state.frontend_token
            &&& after.state.request_id == run.state.request_id
            &&& step == TlsStep::ReadTls ==> status.wants_read && after.turn.pending.readable
            &&& step == TlsStep::WriteTls ==> status.wants_write && after.turn.pending.writable
            &&& !(step is Finished) ==> is_awake(after, status)
            &&& step == TlsStep::Finished(ProtocolResult::Continue) ==> {
                &&& status.is_handshaking || status.wants_write
                &&& status.wants_read ==> readiness.interest.readable && !readiness.event.readable
                &&& status.wants_write ==> readiness.interest.writable && !readiness.event.writable
                &&& readiness.interest.error && !readiness.event.error
                &&& readiness.interest.hup && !readiness.event.hup
                &&& readiness.event == before.event
            }
            &&& step == TlsStep::Finished(ProtocolResult::Upgrade) ==> {
                &&& !status.is_handshaking
                &&& readiness.interest.readable
                &&& status.wants_write ==> readiness.interest.writable
                &&& before.event.readable || after.turn.stage is Reading
                    ==> readiness.event.readable
                &&& readiness.event.writable == before.event.writable
            }
        }),
{
    match run.answered(event) {
        TlsProgress::Going(next) => {
            lemma_run_stays_awake(next, status);
        },
        TlsProgress::Stopped(_, _) => {},
    }
}

/// What the event loop did is looked at by the engine, a socket that had nothing to give or take is not
/// asked again before it says so, and the session is closed where and only where the client has gone,
/// the socket or the engine failed, or the rounds ran out. Between two answers at most one round ends.
pub proof fn law_handshake_answers_the_event_loop(run: TlsRun, event: TlsEvent, status: TlsStatus)
    requires
        run.accepts(event),
        event is Start ==> is_attentive(run.state, status) && run.turn.valid(),
        event !is Start ==> is_awake(run, status),
        event is Processed ==> (run.turn.stage is Reading && run.turn.pending.readable) || (
        run.turn.stage is Writing && run.turn.pending.writable),
        event is Read ==> run.turn.pending.readable,
        event is Wrote ==> run.turn.pending.writable,
    ensures
        ({
            let (after, step) = run.ready(event, status);
            let before = run.state.frontend_readiness;
            let readiness = after.state.frontend_readiness;
            let closed = step == TlsStep::Finished(ProtocolResult::Close);
            match event {
                TlsEvent::Start => {
                    &&& before.event.hup ==> closed
                    &&& after.turn.counter <= 1
                    &&& closed ==> before.event.hup || before.event.error
                    &&& !before.event.error && !before.event.hup && before.interest.readable
                        && before.event.readable && status.wants_read ==> step == TlsStep::ReadTls
                    &&& !before.event.error && !before.event.hup && !before.event.readable
                        && before.interest.writable && before.event.writable && status.wants_write
                        ==> step == TlsStep::WriteTls
                },
                TlsEvent::Read(io) => {
                    &&& io == TlsIo::Moved || io == TlsIo::WouldBlock ==> step == TlsStep::Process
                    &&& io == TlsIo::Nothing || io == TlsIo::Failed ==> closed
                    &&& readiness.event.readable == (before.event.readable && io
                        != TlsIo::WouldBlock)
                    &&& readiness.event.writable == before.event.writable
                    &&& readiness.interest == before.interest
                    &&& after.turn.counter == run.turn.counter
                },
                TlsEvent::Wrote(io) => {
                    &&& io != TlsIo::Failed ==> step == TlsStep::Process
                    &&& io == TlsIo::Failed ==> closed
                    &&& readiness.event.writable == (before.event.writable && io
                        != TlsIo::WouldBlock)
                    &&& readiness.event.readable == before.event.readable
                    &&& readiness.interest == before.interest
                    &&& after.turn.counter == run.turn.counter
                },
                TlsEvent::Processed(accepted) => {
                    &&& !accepted ==> closed
                    &&& accepted && closed ==> run.turn.pending.error || before.event.error
                        || after.turn.counter >= 100000
                    &&& after.turn.counter <= run.turn.counter + 1
                    &&& accepted && run.turn.stage == (TlsStage::Reading { can_read: true })
                        && status.wants_read ==> step == TlsStep::ReadTls
                    &&& accepted && run.turn.stage == (TlsStage::Writing { can_write: true })
                        && status.wants_write ==> step == TlsStep::WriteTls
                    &&& accepted && !status.is_handshaking && !status.wants_write ==> step
                        == TlsStep::Finished(ProtocolResult::Upgrade) || step == TlsStep::ReadTls
                },
            }
        }),
{
    match run.answered(event) {
        TlsProgress::Going(next) => {
            lemma_run_stays_awake(next, status);
            lemma_close_has_a_cause(next, status);
            reveal_with_fuel(TlsRun::run, 5);
        },
        TlsProgress::Stopped(_, _) => {},
    }
}

proof fn lemma_close_has_a_cause(run: TlsRun, status: TlsStatus)
    requires
        is_awake(run, status),
    ensures
        ({
            let (after, step) = run.run(status);
            step == TlsStep::Finished(ProtocolResult::Close) ==> {
                ||| after.turn.counter >= super::MAX_ROUNDS
                ||| run.state.frontend_readiness.event.error
                ||| run.turn.stage !is Head && run.turn.pending.error
            }
        }),
    decreases run.turn.left(),
{
    lemma_step_stays_awake(run, status);
    match run.step(status) {
        TlsProgress::Going(next) => {
            lemma_close_has_a_cause(next, status);
        },
        TlsProgress::Stopped(_, _) => {},
    }
}

} // verus!
