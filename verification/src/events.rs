//! Publish/subscribe event channel: a per-type append-only log with
//! independent per-consumer read cursors.

use vstd::prelude::*;

verus! {

/// A growing log of events of one type. The log is never truncated within a
/// session; consumers track their own progress with an [`EventReader`].
pub struct Events<E> {
    pub log: Vec<E>,
}

impl<E> View for Events<E> {
    type V = Seq<E>;

    open spec fn view(&self) -> Seq<E> {
        self.log@
    }
}

impl<E: Copy> Events<E> {
    pub fn new() -> (r: Events<E>)
        ensures
            r@.len() == 0,
    {
        Events { log: Vec::new() }
    }

    /// Append one event to the log.
    pub fn send(&mut self, e: E)
        ensures
            final(self)@ == old(self)@.push(e),
    {
        self.log.push(e);
    }

    pub fn len(&self) -> (r: usize)
        ensures
            r == self@.len(),
    {
        self.log.len()
    }
}

/// A consumer's read cursor into one event log: the index of its next
/// unread event. Several readers may follow the same log at different
/// rates.
#[derive(Clone, Copy, PartialEq, Eq, Structural, Debug)]
pub struct EventReader {
    pub cursor: usize,
}

impl EventReader {
    pub fn new() -> (r: EventReader)
        ensures
            r.cursor == 0,
    {
        EventReader { cursor: 0 }
    }

    /// Copy out every event sent since this reader last drained, in send
    /// order, and advance the cursor to the end of the log.
    pub fn drain<E: Copy>(&mut self, events: &Events<E>) -> (r: Vec<E>)
        requires
            old(self).cursor <= events@.len(),
        ensures
            r@ == events@.skip(old(self).cursor as int),
            final(self).cursor == events@.len(),
    {
        let mut out: Vec<E> = Vec::new();
        let mut i: usize = self.cursor;
        while i < events.log.len()
            invariant
                self.cursor <= i <= events@.len(),
                out@ == events@.subrange(self.cursor as int, i as int),
            decreases events@.len() - i,
        {
            let ev = events.log[i];
            proof {
                assert(events@.subrange(self.cursor as int, i as int + 1) =~= events@.subrange(
                    self.cursor as int,
                    i as int,
                ).push(events@[i as int]));
            }
            out.push(ev);
            i = i + 1;
        }
        proof {
            assert(events@.subrange(self.cursor as int, events@.len() as int) =~= events@.skip(
                self.cursor as int,
            ));
        }
        self.cursor = events.log.len();
        out
    }
}

} // verus!
