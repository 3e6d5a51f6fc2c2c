//! Why a turn of a pipe does not go round and round: every other round moves bytes.
use vstd::prelude::*;

use crate::ready::Ready;

use super::laws::Happening;
use super::liveness::usable;
use super::outcomes::is_well;
use super::turn::{Progress, SocketEventModel, Stage, TurnState};
use super::PipeModel;

verus! {

impl PipeModel {
    /// There is something to do for a socket that moves bytes.
    spec fn busy(self) -> bool {
        let front = self.frontend_readiness.pending();
        let back = self.backend_readiness.pending();
        ||| front.readable && self.frontend_buffer.space() != 0
        ||| back.writable && self.frontend_buffer.data.len() > 0
        ||| back.readable && self.backend_buffer.space() != 0
        ||| front.writable && self.backend_buffer.data.len() > 0
    }

    spec fn idle(self) -> bool {
        self.frontend_readiness.pending() == Ready::none() && self.backend_readiness.pending()
            == Ready::none()
    }

    spec fn bounded(self) -> bool {
        usable(self.frontend_buffer) && usable(self.backend_buffer)
    }
}

impl TurnState {
    /// The round still comes to something that moves bytes.
    spec fn ahead(self) -> bool {
        let (front, back) = (self.turn.front, self.turn.back);
        let left = self.turn.stage.left();
        &&& left < 8
        &&& {
            ||| left >= 7 && front.readable && self.pipe.frontend_buffer.space() != 0
            ||| left >= 6 && back.writable && self.pipe.frontend_buffer.data.len() > 0
            ||| left >= 5 && back.readable && self.pipe.backend_buffer.space() != 0
            ||| left >= 4 && front.writable && self.pipe.backend_buffer.data.len() > 0
        }
    }

    /// What the stages of the round that are over left to do moves bytes in the next round.
    spec fn tidy(self) -> bool {
        let front = self.pipe.frontend_readiness.pending();
        let back = self.pipe.backend_readiness.pending();
        let left = self.turn.stage.left();
        &&& left < 8
        &&& left == 7 ==> front.readable == self.turn.front.readable && back.writable
            == self.turn.back.writable
        &&& left < 7 ==> (front.readable ==> self.pipe.frontend_buffer.space() != 0)
        &&& left == 6 ==> (back.writable && !self.turn.back.writable
            ==> self.pipe.frontend_buffer.data.len() > 0)
        &&& left < 6 ==> (back.writable ==> self.pipe.frontend_buffer.data.len() > 0)
        &&& left >= 5 ==> (back.readable ==> self.turn.back.readable)
        &&& left < 5 ==> (back.readable ==> self.pipe.backend_buffer.space() != 0)
        &&& left >= 4 ==> (front.writable ==> self.turn.front.writable)
        &&& left < 4 ==> (front.writable ==> self.pipe.backend_buffer.data.len() > 0)
    }

    proof fn lemma_ahead_goes_on(self)
        requires
            self.turn.valid(),
            is_well(self),
            self.ahead(),
        ensures
            match self.step() {
                Progress::Going(next) => next.ahead() && next.turn.counter == self.turn.counter,
                Progress::Stopped(state, _) => state.turn.counter == self.turn.counter,
            },
    {
        reveal(TurnState::step);
    }

    proof fn lemma_ahead_moves_bytes(self)
        requires
            self.turn.valid(),
            is_well(self),
            self.ahead(),
        ensures
            self.run().0.turn.counter == self.turn.counter,
        decreases self.turn.left(),
    {
        self.lemma_step_ends();
        self.lemma_step_stays_well();
        self.lemma_ahead_goes_on();
        match self.step() {
            Progress::Going(next) => {
                next.lemma_ahead_moves_bytes();
            },
            Progress::Stopped(_, _) => {},
        }
    }

    /// A round begins with something to do, or the turn ends.
    proof fn lemma_head(self)
        requires
            self.turn.valid(),
            is_well(self),
            self.turn.stage == Stage::Head,
        ensures
            match self.step() {
                Progress::Going(next) => {
                    &&& next.tidy()
                    &&& next.pipe == self.pipe
                    &&& next.turn.counter == self.turn.counter
                    &&& !self.pipe.idle()
                    &&& self.pipe.busy() ==> next.ahead()
                },
                Progress::Stopped(state, _) => state.turn.counter == self.turn.counter,
            },
    {
        reveal(TurnState::step);
    }

    /// A stage that moves no bytes keeps the round tidy, and leaves something that does move bytes to
    /// the next round, or nothing.
    spec fn stays_tidy(self, progress: Progress) -> bool {
        match progress {
            Progress::Going(next) => {
                &&& next.pipe.bounded()
                &&& next.turn.stage != Stage::Head ==> next.tidy() && next.turn.counter
                    == self.turn.counter
                &&& next.turn.stage == Stage::Head ==> next.turn.counter == self.turn.counter + 1
                    && (next.pipe.idle() || next.pipe.busy())
            },
            Progress::Stopped(state, _) => state.turn.counter == self.turn.counter,
        }
    }

    proof fn lemma_tidy_front_read(self)
        requires
            self.turn.valid(),
            is_well(self),
            self.tidy(),
            self.pipe.bounded(),
            self.turn.stage == Stage::FrontRead,
        ensures
            self.stays_tidy(self.step()),
    {
        super::liveness::lemma_usable_stays(self.pipe.frontend_buffer, Seq::empty(), 0);
        super::liveness::lemma_usable_stays(self.pipe.backend_buffer, Seq::empty(), 0);
        reveal(TurnState::step);
    }

    proof fn lemma_tidy_back_write(self)
        requires
            self.turn.valid(),
            is_well(self),
            self.tidy(),
            self.pipe.bounded(),
            self.turn.stage == Stage::BackWrite,
        ensures
            self.stays_tidy(self.step()),
    {
        super::liveness::lemma_usable_stays(self.pipe.frontend_buffer, Seq::empty(), 0);
        super::liveness::lemma_usable_stays(self.pipe.backend_buffer, Seq::empty(), 0);
        reveal(TurnState::step);
    }

    proof fn lemma_tidy_back_read(self)
        requires
            self.turn.valid(),
            is_well(self),
            self.tidy(),
            self.pipe.bounded(),
            self.turn.stage == Stage::BackRead,
        ensures
            self.stays_tidy(self.step()),
    {
        super::liveness::lemma_usable_stays(self.pipe.frontend_buffer, Seq::empty(), 0);
        super::liveness::lemma_usable_stays(self.pipe.backend_buffer, Seq::empty(), 0);
        reveal(TurnState::step);
    }

    proof fn lemma_tidy_front_write(self)
        requires
            self.turn.valid(),
            is_well(self),
            self.tidy(),
            self.pipe.bounded(),
            self.turn.stage == Stage::FrontWrite,
        ensures
            self.stays_tidy(self.step()),
    {
        super::liveness::lemma_usable_stays(self.pipe.frontend_buffer, Seq::empty(), 0);
        super::liveness::lemma_usable_stays(self.pipe.backend_buffer, Seq::empty(), 0);
        reveal(TurnState::step);
    }

    proof fn lemma_tidy_back_hup(self)
        requires
            self.turn.valid(),
            is_well(self),
            self.tidy(),
            self.pipe.bounded(),
            self.turn.stage == Stage::BackHup,
        ensures
            self.stays_tidy(self.step()),
    {
        super::liveness::lemma_usable_stays(self.pipe.frontend_buffer, Seq::empty(), 0);
        super::liveness::lemma_usable_stays(self.pipe.backend_buffer, Seq::empty(), 0);
        reveal(TurnState::step);
    }

    proof fn lemma_tidy_front_error(self)
        requires
            self.turn.valid(),
            is_well(self),
            self.tidy(),
            self.pipe.bounded(),
            self.turn.stage == Stage::FrontError,
        ensures
            self.stays_tidy(self.step()),
    {
        super::liveness::lemma_usable_stays(self.pipe.frontend_buffer, Seq::empty(), 0);
        super::liveness::lemma_usable_stays(self.pipe.backend_buffer, Seq::empty(), 0);
        reveal(TurnState::step);
    }

    proof fn lemma_tidy_back_error(self)
        requires
            self.turn.valid(),
            is_well(self),
            self.tidy(),
            self.pipe.bounded(),
            self.turn.stage == Stage::BackError,
        ensures
            self.stays_tidy(self.step()),
    {
        super::liveness::lemma_usable_stays(self.pipe.frontend_buffer, Seq::empty(), 0);
        super::liveness::lemma_usable_stays(self.pipe.backend_buffer, Seq::empty(), 0);
        reveal(TurnState::step);
    }

    proof fn lemma_tidy_goes_on(self)
        requires
            self.turn.valid(),
            is_well(self),
            self.tidy(),
            self.pipe.bounded(),
        ensures
            self.stays_tidy(self.step()),
    {
        match self.turn.stage {
            Stage::Head => {},
            Stage::FrontRead => {
                self.lemma_tidy_front_read();
            },
            Stage::BackWrite => {
                self.lemma_tidy_back_write();
            },
            Stage::BackRead => {
                self.lemma_tidy_back_read();
            },
            Stage::FrontWrite => {
                self.lemma_tidy_front_write();
            },
            Stage::BackHup => {
                self.lemma_tidy_back_hup();
            },
            Stage::FrontError => {
                self.lemma_tidy_front_error();
            },
            Stage::BackError => {
                self.lemma_tidy_back_error();
            },
        }
    }

    proof fn lemma_tidy_moves_bytes(self)
        requires
            self.turn.valid(),
            is_well(self),
            self.tidy(),
            self.pipe.bounded(),
        ensures
            self.run().0.turn.counter <= self.turn.counter + 1,
        decreases self.turn.left(),
    {
        reveal_with_fuel(TurnState::run, 3);
        self.lemma_step_ends();
        self.lemma_step_stays_well();
        self.lemma_tidy_goes_on();
        match self.step() {
            Progress::Going(next) => {
                if next.turn.stage == Stage::Head {
                    next.lemma_step_ends();
                    next.lemma_step_stays_well();
                    next.lemma_head();
                    match next.step() {
                        Progress::Going(round) => {
                            round.lemma_ahead_moves_bytes();
                        },
                        Progress::Stopped(_, _) => {},
                    }
                } else {
                    next.lemma_tidy_moves_bytes();
                }
            },
            Progress::Stopped(_, _) => {},
        }
    }

    proof fn lemma_any_goes_on(self)
        requires
            self.turn.valid(),
            is_well(self),
            self.turn.stage != Stage::Head,
        ensures
            match self.step() {
                Progress::Going(next) => {
                    &&& next.pipe.frontend_buffer == self.pipe.frontend_buffer
                    &&& next.pipe.backend_buffer == self.pipe.backend_buffer
                    &&& next.turn.stage != Stage::Head ==> next.turn.counter == self.turn.counter
                    &&& next.turn.stage == Stage::Head ==> next.turn.counter == self.turn.counter
                        + 1
                },
                Progress::Stopped(state, _) => state.turn.counter == self.turn.counter,
            },
    {
        reveal(TurnState::step);
    }

    proof fn lemma_any_moves_bytes(self)
        requires
            self.turn.valid(),
            is_well(self),
            self.pipe.bounded(),
        ensures
            self.turn.stage == Stage::Head ==> self.run().0.turn.counter <= self.turn.counter + 1,
            self.run().0.turn.counter <= self.turn.counter + 2,
        decreases self.turn.left(),
    {
        self.lemma_step_ends();
        self.lemma_step_stays_well();
        if self.turn.stage == Stage::Head {
            self.lemma_head();
            match self.step() {
                Progress::Going(next) => {
                    next.lemma_tidy_moves_bytes();
                },
                Progress::Stopped(_, _) => {},
            }
        } else {
            self.lemma_any_goes_on();
            match self.step() {
                Progress::Going(next) => {
                    next.lemma_any_moves_bytes();
                },
                Progress::Stopped(_, _) => {},
            }
        }
    }
}

/// A turn does not go round in vain. As long as no socket fails, hangs up, is closed or comes to its
/// end, an answer is followed by at most two new rounds before bytes are moved again or the turn is
/// over, and the start of a turn by at most one. So only a turn that moves bytes tens of thousands of
/// times can use up its rounds.
pub proof fn law_rounds_move_bytes(
    start: TurnState,
    happenings: Seq<Happening>,
    event: SocketEventModel,
)
    requires
        start.is_start(),
        start.pipe.backend,
        !start.pipe.frontend_readiness.event.hup,
        !start.pipe.frontend_readiness.event.error,
        start.lives_through(happenings),
        forall|i: int|
            0 <= i < happenings.len() ==> super::outcomes::is_calm(#[trigger] happenings[i]),
        start.after_all(happenings).expects(event),
        super::outcomes::is_calm(Happening::Answered(event)),
    ensures
        ({
            let before = start.after_all(happenings);
            let after = before.ready(event).0;
            &&& event is Start ==> after.turn.counter <= 1
            &&& !(event is Start) ==> after.turn.counter <= before.turn.counter + 2
        }),
{
    let before = start.after_all(happenings);
    super::outcomes::lemma_life_stays_well(start, happenings);
    super::liveness::lemma_life_is_bounded(start, happenings);
    before.lemma_answer_stays_well(event);
    before.lemma_answer_is_valid(event);
    before.lemma_answer_counts(event);
    match before.answered(event) {
        Progress::Going(next) => {
            next.lemma_any_moves_bytes();
        },
        Progress::Stopped(_, _) => {},
    }
}

impl TurnState {
    proof fn lemma_answer_counts(self, event: SocketEventModel)
        requires
            self.turn.valid(),
            self.accepts(event),
            self.pipe.bounded(),
        ensures
            match self.answered(event) {
                Progress::Going(next) => {
                    &&& next.pipe.bounded()
                    &&& event is Start ==> next.turn.counter == 0 && next.turn.stage == Stage::Head
                    &&& !(event is Start) ==> next.turn.counter == self.turn.counter
                },
                Progress::Stopped(state, _) => {
                    &&& event is Start ==> state.turn.counter == 0
                    &&& !(event is Start) ==> state.turn.counter == self.turn.counter
                },
            },
    {
        reveal(TurnState::answered);
        match event {
            SocketEventModel::Start => {},
            SocketEventModel::Read(bytes, res) => {
                if self.turn.stage == Stage::FrontRead {
                    super::liveness::lemma_usable_stays(self.pipe.frontend_buffer, bytes, 0);
                } else {
                    super::liveness::lemma_usable_stays(self.pipe.backend_buffer, bytes, 0);
                }
            },
            SocketEventModel::Wrote(n, res) => {
                if self.turn.stage == Stage::BackWrite {
                    super::liveness::lemma_usable_stays(
                        self.pipe.frontend_buffer,
                        Seq::empty(),
                        n as nat,
                    );
                } else {
                    super::liveness::lemma_usable_stays(
                        self.pipe.backend_buffer,
                        Seq::empty(),
                        n as nat,
                    );
                }
            },
        }
    }
}

} // verus!
