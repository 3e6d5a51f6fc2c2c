//! What the event loop reports of a socket, and what a session wants to hear of.
use vstd::prelude::*;

verus! {

/// Identifies a socket in the event loop.
#[derive(Debug, Clone, Copy, PartialEq, Eq, Structural, Hash)]
pub struct Token(pub usize);

/// A set of events of a socket.
#[derive(Debug, Clone, Copy, PartialEq, Eq, Structural, Hash)]
pub struct Ready {
    pub readable: bool,
    pub writable: bool,
    pub error: bool,
    pub hup: bool,
}

impl Ready {
    pub open spec fn none() -> Ready {
        Ready { readable: false, writable: false, error: false, hup: false }
    }

    pub open spec fn every() -> Ready {
        Ready { readable: true, writable: true, error: true, hup: true }
    }

    /// The events of both sets.
    pub open spec fn joined(self, other: Ready) -> Ready {
        Ready {
            readable: self.readable || other.readable,
            writable: self.writable || other.writable,
            error: self.error || other.error,
            hup: self.hup || other.hup,
        }
    }

    /// The events that both sets have.
    pub open spec fn common(self, other: Ready) -> Ready {
        Ready {
            readable: self.readable && other.readable,
            writable: self.writable && other.writable,
            error: self.error && other.error,
            hup: self.hup && other.hup,
        }
    }

    /// The events of this set that the other one does not have.
    pub open spec fn without(self, other: Ready) -> Ready {
        Ready {
            readable: self.readable && !other.readable,
            writable: self.writable && !other.writable,
            error: self.error && !other.error,
            hup: self.hup && !other.hup,
        }
    }

    pub fn empty() -> (r: Ready)
        ensures
            r == Ready::none(),
    {
        Ready { readable: false, writable: false, error: false, hup: false }
    }

    pub fn readable() -> (r: Ready)
        ensures
            r == (Ready { readable: true, ..Ready::none() }),
    {
        Ready { readable: true, writable: false, error: false, hup: false }
    }

    pub fn writable() -> (r: Ready)
        ensures
            r == (Ready { writable: true, ..Ready::none() }),
    {
        Ready { readable: false, writable: true, error: false, hup: false }
    }

    pub fn error() -> (r: Ready)
        ensures
            r == (Ready { error: true, ..Ready::none() }),
    {
        Ready { readable: false, writable: false, error: true, hup: false }
    }

    pub fn hup() -> (r: Ready)
        ensures
            r == (Ready { hup: true, ..Ready::none() }),
    {
        Ready { readable: false, writable: false, error: false, hup: true }
    }

    pub fn all() -> (r: Ready)
        ensures
            r == Ready::every(),
    {
        Ready { readable: true, writable: true, error: true, hup: true }
    }

    pub fn is_empty(&self) -> (r: bool)
        ensures
            r == (*self == Ready::none()),
    {
        !self.readable && !self.writable && !self.error && !self.hup
    }

    /// The events of both sets.
    pub fn union(self, other: Ready) -> (r: Ready)
        ensures
            r == self.joined(other),
    {
        Ready {
            readable: self.readable || other.readable,
            writable: self.writable || other.writable,
            error: self.error || other.error,
            hup: self.hup || other.hup,
        }
    }

    /// The events that both sets have.
    pub fn intersection(self, other: Ready) -> (r: Ready)
        ensures
            r == self.common(other),
    {
        Ready {
            readable: self.readable && other.readable,
            writable: self.writable && other.writable,
            error: self.error && other.error,
            hup: self.hup && other.hup,
        }
    }

    /// The events of this set that the other one does not have.
    pub fn difference(self, other: Ready) -> (r: Ready)
        ensures
            r == self.without(other),
    {
        Ready {
            readable: self.readable && !other.readable,
            writable: self.writable && !other.writable,
            error: self.error && !other.error,
            hup: self.hup && !other.hup,
        }
    }

    pub fn insert(&mut self, other: Ready)
        ensures
            *final(self) == old(self).joined(other),
    {
        *self = self.union(other);
    }

    pub fn remove(&mut self, other: Ready)
        ensures
            *final(self) == old(self).without(other),
    {
        *self = self.difference(other);
    }
}

/// What happened on a socket, and which of it matters.
#[derive(Debug, Clone, Copy, PartialEq, Eq, Structural)]
pub struct Readiness {
    /// the events that were reported and not dealt with yet
    pub event: Ready,
    /// the events that matter
    pub interest: Ready,
}

impl Readiness {
    /// No event, and no interest in any.
    pub open spec fn nothing() -> Readiness {
        Readiness { event: Ready::none(), interest: Ready::none() }
    }

    /// The events that were reported and matter.
    pub open spec fn pending(self) -> Ready {
        self.interest.common(self.event)
    }

    pub fn new() -> (r: Readiness)
        ensures
            r == Readiness::nothing(),
    {
        Readiness { event: Ready::empty(), interest: Ready::empty() }
    }

    pub fn reset(&mut self)
        ensures
            *final(self) == Readiness::nothing(),
    {
        self.event = Ready::empty();
        self.interest = Ready::empty();
    }

    /// The events that were reported and matter.
    pub fn filter_interest(&self) -> (r: Ready)
        ensures
            r == self.pending(),
    {
        self.interest.intersection(self.event)
    }
}

impl Readiness {
    pub open spec fn with_interest(self, ready: Ready) -> Readiness {
        Readiness { interest: self.interest.joined(ready), ..self }
    }

    pub open spec fn without_interest(self, ready: Ready) -> Readiness {
        Readiness { interest: self.interest.without(ready), ..self }
    }

    pub open spec fn without_event(self, ready: Ready) -> Readiness {
        Readiness { event: self.event.without(ready), ..self }
    }

    /// These events matter from now on.
    pub fn interested_in(self, ready: Ready) -> (r: Readiness)
        ensures
            r == self.with_interest(ready),
    {
        Readiness { event: self.event, interest: self.interest.union(ready) }
    }

    /// These events do not matter any more.
    pub fn bored_by(self, ready: Ready) -> (r: Readiness)
        ensures
            r == self.without_interest(ready),
    {
        Readiness { event: self.event, interest: self.interest.difference(ready) }
    }

    /// These events were dealt with.
    pub fn done_with(self, ready: Ready) -> (r: Readiness)
        ensures
            r == self.without_event(ready),
    {
        Readiness { event: self.event.difference(ready), interest: self.interest }
    }
}

} // verus!
