//! Broadcast bus: a bounded, lossy-on-lag, multi-consumer channel model.
//!
//! The bus keeps the global publish order in `log`. A cursor is an
//! independent reader position. A reader that falls behind by more than
//! the capacity is skipped forward and told how many entries it lost;
//! the producer is never blocked by a slow reader (`publish` is total
//! and never inspects any cursor).

use vstd::prelude::*;
use crate::domain::SensorEntry;

verus! {

/// Default bus capacity.
pub const BUS_CAPACITY: usize = 100;

/// What `publish` reports.
#[derive(Debug, PartialEq, Eq, Structural)]
pub enum PublishOutcome {
    /// The entry was accepted; carries the number of live cursors.
    Delivered(usize),
    /// No cursor is open; the entry was not queued. Not an error.
    NoSubscribers,
}

/// What one read of a cursor yields.
#[derive(Clone, Copy, Debug, PartialEq, Eq, Structural)]
pub enum RecvOutcome {
    /// The next entry, in publish order.
    Entry(SensorEntry),
    /// The cursor fell behind by more than the capacity; it was moved
    /// forward and this many entries were discarded for it.
    Lagged(usize),
    /// Nothing published yet beyond this cursor; a live reader waits.
    Empty,
    /// The producer is gone and everything was delivered.
    Closed,
}

/// The bus. `log` holds every accepted entry in publish order.
pub struct Bus {
    pub log: Vec<SensorEntry>,
    pub capacity: usize,
    pub subscribers: usize,
    pub closed: bool,
}

/// An independent reader position: index into `log` of the next entry
/// this reader has not seen.
pub struct Cursor {
    pub next: usize,
}

/// The read transition, as a function of the bus state and the reader
/// position: what comes out, and where the position moves.
pub open spec fn spec_recv(
    log: Seq<SensorEntry>,
    capacity: nat,
    closed: bool,
    next: nat,
) -> (RecvOutcome, nat)
    recommends
        next <= log.len(),
{
    if next >= log.len() {
        (if closed { RecvOutcome::Closed } else { RecvOutcome::Empty }, next)
    } else if log.len() - next > capacity {
        (
            RecvOutcome::Lagged((log.len() - capacity - next) as usize),
            (log.len() - capacity) as nat,
        )
    } else {
        (RecvOutcome::Entry(log[next as int]), next + 1)
    }
}

impl Bus {
    pub open spec fn wf(&self) -> bool {
        self.capacity > 0
    }

    /// A cursor that this bus handed out and that has kept pace with
    /// the log (it may still be behind, even beyond the capacity).
    pub open spec fn wf_cursor(&self, c: Cursor) -> bool {
        c.next <= self.log@.len()
    }

    pub fn new(capacity: usize) -> (r: Bus)
        requires
            capacity > 0,
        ensures
            r.wf(),
            r.log@ == Seq::<SensorEntry>::empty(),
            r.capacity == capacity,
            r.subscribers == 0,
            !r.closed,
    {
        Bus { log: Vec::new(), capacity, subscribers: 0, closed: false }
    }

    /// A fresh cursor sees exactly what is published after this call.
    pub fn subscribe(&mut self) -> (c: Cursor)
        requires
            old(self).subscribers < usize::MAX,
        ensures
            final(self).log@ == old(self).log@,
            final(self).capacity == old(self).capacity,
            final(self).closed == old(self).closed,
            final(self).subscribers == old(self).subscribers + 1,
            c.next == old(self).log@.len(),
            final(self).wf_cursor(c),
    {
        self.subscribers += 1;
        Cursor { next: self.log.len() }
    }

    /// A reader drops its cursor.
    pub fn unsubscribe(&mut self)
        requires
            old(self).subscribers > 0,
        ensures
            final(self).log@ == old(self).log@,
            final(self).capacity == old(self).capacity,
            final(self).closed == old(self).closed,
            final(self).subscribers == old(self).subscribers - 1,
    {
        self.subscribers -= 1;
    }

    /// The producer is gone; cursors drain what remains, then `Closed`.
    pub fn close(&mut self)
        ensures
            final(self).log@ == old(self).log@,
            final(self).capacity == old(self).capacity,
            final(self).subscribers == old(self).subscribers,
            final(self).closed,
    {
        self.closed = true;
    }

    /// Accept one entry. Total: it never waits on any reader, and no
    /// cursor is touched. With no reader the entry is not queued and
    /// the caller is told so; that is a signal, not an error.
    pub fn publish(&mut self, e: SensorEntry) -> (r: PublishOutcome)
        requires
            old(self).log@.len() < usize::MAX,
        ensures
            final(self).capacity == old(self).capacity,
            final(self).closed == old(self).closed,
            final(self).subscribers == old(self).subscribers,
            if old(self).subscribers == 0 {
                r == PublishOutcome::NoSubscribers && final(self).log@ == old(self).log@
            } else {
                r == PublishOutcome::Delivered(old(self).subscribers) && final(self).log@ == old(
                    self,
                ).log@.push(e)
            },
    {
        if self.subscribers == 0 {
            PublishOutcome::NoSubscribers
        } else {
            self.log.push(e);
            PublishOutcome::Delivered(self.subscribers)
        }
    }

    /// One read: the next entry in publish order, or the lag signal
    /// that skips the cursor forward, or the empty/closed state.
    pub fn recv(&self, cursor: &mut Cursor) -> (r: RecvOutcome)
        requires
            self.wf(),
            self.wf_cursor(*old(cursor)),
        ensures
            self.wf_cursor(*final(cursor)),
            r == spec_recv(
                self.log@,
                self.capacity as nat,
                self.closed,
                old(cursor).next as nat,
            ).0,
            final(cursor).next as nat == spec_recv(
                self.log@,
                self.capacity as nat,
                self.closed,
                old(cursor).next as nat,
            ).1,
    {
        let len = self.log.len();
        if cursor.next >= len {
            if self.closed {
                RecvOutcome::Closed
            } else {
                RecvOutcome::Empty
            }
        } else if len - cursor.next > self.capacity {
            let skipped = len - self.capacity - cursor.next;
            cursor.next = len - self.capacity;
            RecvOutcome::Lagged(skipped)
        } else {
            let e = self.log[cursor.next];
            cursor.next += 1;
            RecvOutcome::Entry(e)
        }
    }

    /// Read until nothing is pending. For a cursor that has not fallen
    /// beyond the capacity this returns exactly the entries published
    /// since its position, in publish order, each exactly once.
    pub fn drain(&self, cursor: &mut Cursor) -> (r: Vec<SensorEntry>)
        requires
            self.wf(),
            self.wf_cursor(*old(cursor)),
            self.log@.len() - old(cursor).next <= self.capacity,
        ensures
            r@ == self.log@.subrange(old(cursor).next as int, self.log@.len() as int),
            final(cursor).next == self.log@.len(),
    {
        let ghost start = old(cursor).next as int;
        let len = self.log.len();
        let mut out: Vec<SensorEntry> = Vec::new();
        proof {
            assert(self.log@.subrange(start, start) =~= Seq::<SensorEntry>::empty());
        }
        while cursor.next < len
            invariant
                self.wf(),
                len == self.log@.len(),
                0 <= start <= cursor.next <= len,
                len - cursor.next <= self.capacity,
                out@ =~= self.log@.subrange(start, cursor.next as int),
            decreases len - cursor.next,
        {
            let ghost before = cursor.next as int;
            let r = self.recv(cursor);
            match r {
                RecvOutcome::Entry(e) => {
                    out.push(e);
                    proof {
                        lemma_subrange_push(self.log@, start, before);
                        assert(out@ =~= self.log@.subrange(start, before + 1));
                    }
                },
                _ => {
                    proof {
                        assert(false);
                    }
                },
            }
        }
        proof {
            assert(out@ =~= self.log@.subrange(start, len as int));
        }
        out
    }
}

/// One more element extends a slice by one.
proof fn lemma_subrange_push(s: Seq<SensorEntry>, a: int, b: int)
    requires
        0 <= a <= b < s.len(),
    ensures
        s.subrange(a, b + 1) =~= s.subrange(a, b).push(s[b]),
{
}

/// The slow-consumer policy in full: a reader that fell behind by more
/// than the capacity is told the exact number it lost, is moved to the
/// oldest entry still kept, and from there reads real entries again.
/// The producer and every other cursor are untouched by any of it.
pub proof fn lemma_lagged_reader_recovers(
    log: Seq<SensorEntry>,
    capacity: nat,
    closed: bool,
    next: nat,
)
    requires
        capacity > 0,
        next <= log.len(),
        log.len() - next > capacity,
    ensures
        ({
            let (r1, n1) = spec_recv(log, capacity, closed, next);
            let (r2, n2) = spec_recv(log, capacity, closed, n1);
            r1 == RecvOutcome::Lagged((log.len() - capacity - next) as usize) && n1 == log.len()
                - capacity && r2 == RecvOutcome::Entry(log[log.len() - capacity]) && n2 == n1 + 1
        }),
{
}

/// Exactly-once delivery: when entries carry pairwise distinct ids, the
/// slice a reader drains holds any one published entry exactly once —
/// at its publish position and nowhere else.
pub proof fn lemma_delivered_exactly_once(log: Seq<SensorEntry>, a: int, b: int, p: int)
    requires
        0 <= a <= p < b <= log.len(),
        forall|i: int, j: int| 0 <= i < j < log.len() ==> log[i].id != log[j].id,
    ensures
        forall|j: int|
            0 <= j < b - a ==> ((log.subrange(a, b)[j] == log[p]) <==> j == p - a),
{
    assert forall|j: int| 0 <= j < b - a implies ((log.subrange(a, b)[j] == log[p]) <==> j == p
        - a) by {
        assert(log.subrange(a, b)[j] == log[a + j]);
        if log[a + j] == log[p] && a + j != p {
            assert(log[a + j].id != log[p].id);
        }
    }
}

} // verus!
