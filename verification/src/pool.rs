//! The worker pool's admission state: a bounded set of busy workers and a
//! FIFO queue of submitted jobs.
//!
//! The pool's threads live outside the library; what is modelled and
//! decided here is everything the threads must agree on: how many may be
//! busy at once (fixed at construction), which submission is served next
//! (strictly first-in, first-out), and that every submission is handed out
//! exactly once — a ticket is issued fresh, queued once, and leaves the
//! queue the moment a worker takes it.

use vstd::prelude::*;

verus! {

/// The admission state of a fixed-size worker pool.
#[derive(Debug)]
pub struct WorkerPool {
    capacity: usize,
    pending: Vec<u64>,
    active: usize,
    next_ticket: u64,
}

impl WorkerPool {
    /// The queued tickets, oldest first.
    pub closed spec fn spec_pending(self) -> Seq<u64> {
        self.pending@
    }

    /// How many workers are busy.
    pub closed spec fn spec_active(self) -> nat {
        self.active as nat
    }

    /// How many workers there are.
    pub closed spec fn spec_capacity(self) -> nat {
        self.capacity as nat
    }

    /// The ticket the next submission will receive.
    pub closed spec fn spec_next_ticket(self) -> u64 {
        self.next_ticket
    }

    /// Well-formedness: at most `capacity` workers are busy, and every
    /// queued ticket was issued before the counter — so queued tickets
    /// are distinct and a fresh ticket never collides with one.
    pub closed spec fn wf(self) -> bool {
        &&& self.capacity >= 1
        &&& self.active <= self.capacity
        &&& forall|i: int, j: int|
            0 <= i < self.pending@.len() && 0 <= j < self.pending@.len()
                && self.pending@[i] == self.pending@[j] ==> i == j
        &&& forall|i: int|
            0 <= i < self.pending@.len() ==> #[trigger] self.pending@[i] < self.next_ticket
    }

    /// An idle pool of `capacity` workers.
    pub fn new(capacity: usize) -> (r: Self)
        requires
            capacity >= 1,
        ensures
            r.wf(),
            r.spec_capacity() == capacity,
            r.spec_pending() == Seq::<u64>::empty(),
            r.spec_active() == 0,
            r.spec_next_ticket() == 0,
    {
        let r = WorkerPool { capacity, pending: Vec::new(), active: 0, next_ticket: 0 };
        proof {
            assert(r.spec_pending() =~= Seq::<u64>::empty());
        }
        r
    }

    /// Queues one job and returns its ticket. The ticket is fresh: no
    /// queued submission carries it, so this submission is served exactly
    /// once, when its ticket reaches the front.
    pub fn submit(&mut self) -> (t: u64)
        requires
            old(self).wf(),
            old(self).spec_next_ticket() < u64::MAX,
        ensures
            final(self).wf(),
            t == old(self).spec_next_ticket(),
            !old(self).spec_pending().contains(t),
            final(self).spec_pending() == old(self).spec_pending().push(t),
            final(self).spec_active() == old(self).spec_active(),
            final(self).spec_capacity() == old(self).spec_capacity(),
            final(self).spec_next_ticket() == old(self).spec_next_ticket() + 1,
    {
        let t = self.next_ticket;
        self.pending.push(t);
        self.next_ticket = self.next_ticket + 1;
        t
    }

    /// Hands the oldest queued job to a worker, when a worker is free and
    /// a job is queued; the job leaves the queue for good. With every
    /// worker busy, or nothing queued, nothing is handed out.
    pub fn start_next(&mut self) -> (t: Option<u64>)
        requires
            old(self).wf(),
        ensures
            final(self).wf(),
            match t {
                Some(x) => {
                    &&& old(self).spec_pending().len() > 0
                    &&& old(self).spec_active() < old(self).spec_capacity()
                    &&& x == old(self).spec_pending()[0]
                    &&& final(self).spec_pending() == old(self).spec_pending().drop_first()
                    &&& final(self).spec_active() == old(self).spec_active() + 1
                    &&& !final(self).spec_pending().contains(x)
                },
                None => {
                    &&& old(self).spec_pending().len() == 0
                        || old(self).spec_active() == old(self).spec_capacity()
                    &&& *final(self) == *old(self)
                },
            },
            final(self).spec_capacity() == old(self).spec_capacity(),
            final(self).spec_next_ticket() == old(self).spec_next_ticket(),
    {
        if self.active < self.capacity && self.pending.len() > 0 {
            let ghost pre = *self;
            let t = self.pending.remove(0);
            self.active = self.active + 1;
            proof {
                assert(self.pending@ =~= pre.pending@.drop_first());
                if self.pending@.contains(t) {
                    let w = choose|w: int|
                        0 <= w < self.pending@.len() && self.pending@[w] == t;
                    assert(pre.pending@[w + 1] == t);
                    assert(pre.pending@[0] == t);
                }
            }
            Some(t)
        } else {
            None
        }
    }

    /// Records that one busy worker finished its job. Returns whether any
    /// worker was busy at all.
    pub fn worker_done(&mut self) -> (had: bool)
        requires
            old(self).wf(),
        ensures
            final(self).wf(),
            had == (old(self).spec_active() > 0),
            final(self).spec_active() == if had {
                (old(self).spec_active() - 1) as nat
            } else {
                0
            },
            final(self).spec_pending() == old(self).spec_pending(),
            final(self).spec_capacity() == old(self).spec_capacity(),
            final(self).spec_next_ticket() == old(self).spec_next_ticket(),
    {
        if self.active > 0 {
            self.active = self.active - 1;
            true
        } else {
            false
        }
    }

    /// How many workers are busy.
    pub fn active_count(&self) -> (n: usize)
        ensures
            n == self.spec_active(),
    {
        self.active
    }

    /// How many tickets have been issued; the next submission's ticket.
    pub fn tickets_issued(&self) -> (n: u64)
        ensures
            n == self.spec_next_ticket(),
    {
        self.next_ticket
    }

    /// How many jobs wait in the queue.
    pub fn pending_count(&self) -> (n: usize)
        ensures
            n == self.spec_pending().len(),
    {
        self.pending.len()
    }
}

} // verus!
