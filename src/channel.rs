use crate::record::{Record, RecordView};
use std::collections::VecDeque;
use vstd::prelude::*;

verus! {

/// A counter that stops at `u64::MAX` instead of wrapping.
pub open spec fn bump(n: nat) -> nat {
    if n < u64::MAX {
        n + 1
    } else {
        n
    }
}

/// What a sink's worker does next.
pub enum WorkerAction {
    /// Hand this record to the sink.
    Deliver(Record),
    /// The queue is empty but open: wait for more.
    Wait,
    /// The queue is closed and empty: the worker ends.
    Exit,
}

/// The bounded queue in front of one sink.
///
/// Records go in at the back while there is room and the queue is open; a
/// record that finds the queue full is rejected and counted. The worker takes
/// records from the front, so a sink sees its records in the order they were
/// accepted.
pub struct Channel {
    queue: VecDeque<Record>,
    capacity: usize,
    dropped: u64,
    failed: u64,
    closed: bool,
    /// Every record this channel has accepted, in order.
    accepted: Ghost<Seq<RecordView>>,
    /// How many of them the worker has taken.
    taken: Ghost<nat>,
}

pub struct ChannelView {
    pub accepted: Seq<RecordView>,
    pub taken: nat,
    pub capacity: nat,
    pub dropped: nat,
    pub failed: nat,
    pub closed: bool,
}

impl View for Channel {
    type V = ChannelView;

    closed spec fn view(&self) -> ChannelView {
        ChannelView {
            accepted: self.accepted@,
            taken: self.taken@,
            capacity: self.capacity as nat,
            dropped: self.dropped as nat,
            failed: self.failed as nat,
            closed: self.closed,
        }
    }
}

impl ChannelView {
    /// The records that wait in the queue.
    pub open spec fn pending(self) -> Seq<RecordView> {
        self.accepted.skip(self.taken as int)
    }

    /// The records that were handed to the sink, in order.
    pub open spec fn delivered(self) -> Seq<RecordView> {
        self.accepted.take(self.taken as int)
    }

    pub open spec fn has_room(self) -> bool {
        !self.closed && self.pending().len() < self.capacity
    }

    /// The channel after `r` is offered to it.
    pub open spec fn enqueued(self, r: RecordView) -> ChannelView {
        if self.closed {
            self
        } else if self.pending().len() < self.capacity {
            ChannelView { accepted: self.accepted.push(r), ..self }
        } else {
            ChannelView { dropped: bump(self.dropped), ..self }
        }
    }

    /// The channel after the sink reported the outcome of one record.
    pub open spec fn reported(self, ok: bool) -> ChannelView {
        if ok {
            self
        } else {
            ChannelView { failed: bump(self.failed), ..self }
        }
    }

    pub open spec fn valid(self) -> bool {
        &&& self.taken <= self.accepted.len()
        &&& self.pending().len() <= self.capacity
        &&& self.dropped <= u64::MAX
        &&& self.failed <= u64::MAX
    }
}

pub open spec fn record_view(r: Record) -> RecordView {
    r@
}

impl Channel {
    pub closed spec fn wf(&self) -> bool {
        &&& self.taken@ <= self.accepted@.len()
        &&& self.queue@.map_values(|r: Record| record_view(r)) == self@.pending()
        &&& self.queue@.len() <= self.capacity
    }

    /// An open, empty channel that holds at most `capacity` records.
    pub fn new(capacity: usize) -> (r: Channel)
        ensures
            r.wf(),
            r@.accepted.len() == 0,
            r@.taken == 0,
            r@.capacity == capacity as nat,
            r@.dropped == 0,
            r@.failed == 0,
            !r@.closed,
    {
        let r = Channel {
            queue: VecDeque::new(),
            capacity,
            dropped: 0,
            failed: 0,
            closed: false,
            accepted: Ghost(Seq::empty()),
            taken: Ghost(0),
        };
        assert(r.queue@.map_values(|r: Record| record_view(r)) =~= r@.pending());
        r
    }

    /// Offers `r` to the queue. It is taken when the channel is open and has
    /// room; a full queue rejects it and counts one more dropped record; a
    /// closed one ignores it.
    pub fn enqueue(&mut self, r: Record) -> (accepted: bool)
        requires
            old(self).wf(),
        ensures
            final(self).wf(),
            final(self)@ == old(self)@.enqueued(r@),
            accepted == old(self)@.has_room(),
    {
        if self.closed {
            return false;
        }
        if self.queue.len() < self.capacity {
            let ghost rv = r@;
            let ghost p0 = self@.pending();
            let ghost q0 = self.queue@;
            self.queue.push_back(r);
            self.accepted = Ghost(self.accepted@.push(rv));
            assert(self@.pending() =~= p0.push(rv));
            assert(self.queue@ =~= q0.push(r));
            assert(self.queue@.map_values(|r: Record| record_view(r)) =~= self@.pending());
            true
        } else {
            if self.dropped < u64::MAX {
                self.dropped = self.dropped + 1;
            }
            false
        }
    }

    /// Decides the worker's next move: the oldest waiting record, a wait
    /// while the queue is open and empty, or the end once it is closed and
    /// empty.
    pub fn worker_step(&mut self) -> (action: WorkerAction)
        requires
            old(self).wf(),
        ensures
            final(self).wf(),
            old(self)@.pending().len() > 0 ==> {
                &&& action matches WorkerAction::Deliver(r)
                &&& r@ == old(self)@.pending()[0]
                &&& final(self)@ == (ChannelView { taken: old(self)@.taken + 1, ..old(self)@ })
            },
            old(self)@.pending().len() == 0 ==> {
                &&& final(self)@ == old(self)@
                &&& (if old(self)@.closed {
                    action is Exit
                } else {
                    action is Wait
                })
            },
    {
        let ghost q0 = self.queue@.map_values(|r: Record| record_view(r));
        let ghost p0 = self@.pending();
        match self.queue.pop_front() {
            Some(r) => {
                assert(q0[0] == record_view(r));
                assert(p0.drop_first() =~= self.accepted@.skip(self.taken@ + 1 as int));
                self.taken = Ghost(self.taken@ + 1);
                assert(self.queue@.map_values(|r: Record| record_view(r)) =~= self@.pending());
                WorkerAction::Deliver(r)
            },
            None => {
                if self.closed {
                    WorkerAction::Exit
                } else {
                    WorkerAction::Wait
                }
            },
        }
    }

    /// Counts the outcome of one delivery: a failure adds one to the failure
    /// count, a success changes nothing.
    pub fn report(&mut self, ok: bool)
        requires
            old(self).wf(),
        ensures
            final(self).wf(),
            final(self)@ == old(self)@.reported(ok),
    {
        if !ok && self.failed < u64::MAX {
            self.failed = self.failed + 1;
        }
    }

    /// Stops accepting records; the worker drains what is queued and ends.
    /// Closing a closed channel changes nothing.
    pub fn close(&mut self)
        requires
            old(self).wf(),
        ensures
            final(self).wf(),
            final(self)@ == (ChannelView { closed: true, ..old(self)@ }),
    {
        self.closed = true;
    }

    pub fn dropped(&self) -> (r: u64)
        ensures
            r as nat == self@.dropped,
    {
        self.dropped
    }

    pub fn failed(&self) -> (r: u64)
        ensures
            r as nat == self@.failed,
    {
        self.failed
    }

    pub fn is_closed(&self) -> (r: bool)
        ensures
            r == self@.closed,
    {
        self.closed
    }

    pub fn len(&self) -> (r: usize)
        requires
            self.wf(),
        ensures
            r as nat == self@.pending().len(),
    {
        self.queue.len()
    }

    pub fn capacity(&self) -> (r: usize)
        ensures
            r as nat == self@.capacity,
    {
        self.capacity
    }
}

} // verus!
