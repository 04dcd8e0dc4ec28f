//! A forward-only cursor over a sequence of markup events.
//!
//! Exactly one decoder consumes from a cursor at any instant; a delegating
//! decoder hands the cursor to a collaborator for the length of the
//! delegated sub-tree and takes it back where the collaborator stopped.

use vstd::prelude::*;

use crate::events::XmlEvent;

verus! {

pub struct Cursor {
    events: Vec<XmlEvent>,
    pos: usize,
}

impl Cursor {
    /// The full event sequence the cursor ranges over.
    pub closed spec fn events(&self) -> Seq<XmlEvent> {
        self.events@
    }

    /// The index of the next event to consume.
    pub closed spec fn pos(&self) -> int {
        self.pos as int
    }

    /// The cursor never stands past the end of its events.
    pub open spec fn wf(&self) -> bool {
        0 <= self.pos() <= self.events().len()
    }

    /// The events not yet consumed.
    pub open spec fn remaining(&self) -> Seq<XmlEvent> {
        self.events().skip(self.pos())
    }

    pub fn new(events: Vec<XmlEvent>) -> (c: Cursor)
        ensures
            c.events() == events@,
            c.pos() == 0,
            c.wf(),
    {
        Cursor { events, pos: 0 }
    }

    /// True while an event is left to consume.
    pub fn has_next(&self) -> (r: bool)
        ensures
            r == (self.pos() < self.events().len()),
    {
        self.pos < self.events.len()
    }

    /// The event the cursor stands on.
    pub fn peek(&self) -> (ev: &XmlEvent)
        requires
            self.wf(),
            self.pos() < self.events().len(),
        ensures
            *ev == self.events()[self.pos()],
    {
        &self.events[self.pos]
    }

    /// Consumes one event.
    pub fn advance(&mut self)
        requires
            old(self).wf(),
            old(self).pos() < old(self).events().len(),
        ensures
            final(self).events() == old(self).events(),
            final(self).pos() == old(self).pos() + 1,
            final(self).wf(),
    {
        let n = self.events.len();
        assert(self.pos < n);
        self.pos = self.pos + 1;
    }

    /// How many events have been consumed so far.
    pub fn position(&self) -> (p: usize)
        ensures
            p == self.pos(),
    {
        self.pos
    }
}

} // verus!
