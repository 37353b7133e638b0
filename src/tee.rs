use crate::channel::{Channel, ChannelView, WorkerAction};
use crate::filter::{FilterView, LevelFilter};
use crate::record::{Record, RecordView};
use vstd::prelude::*;

verus! {

/// Fans each record that passes the filter out to every registered channel,
/// in registration order. Sinks are only ever added, never removed.
pub struct DrainTee {
    filter: LevelFilter,
    channels: Vec<Channel>,
}

pub struct TeeView {
    pub filter: FilterView,
    pub channels: Seq<ChannelView>,
}

pub open spec fn channel_view(c: Channel) -> ChannelView {
    c@
}

impl View for DrainTee {
    type V = TeeView;

    closed spec fn view(&self) -> TeeView {
        TeeView {
            filter: self.filter@,
            channels: self.channels@.map_values(|c: Channel| channel_view(c)),
        }
    }
}

impl TeeView {
    pub open spec fn admits(self, r: RecordView) -> bool {
        self.filter.admits(r.scope, r.level)
    }

    /// The tee after `r` is submitted: filtered once, then offered to every
    /// channel.
    pub open spec fn submitted(self, r: RecordView) -> TeeView {
        if self.admits(r) {
            TeeView {
                channels: Seq::new(self.channels.len(), |i: int| self.channels[i].enqueued(r)),
                ..self
            }
        } else {
            self
        }
    }

    /// The tee with channel `i` replaced by `c`.
    pub open spec fn with_channel(self, i: int, c: ChannelView) -> TeeView {
        TeeView { channels: self.channels.update(i, c), ..self }
    }
}

impl DrainTee {
    pub closed spec fn wf(&self) -> bool {
        forall|i: int| 0 <= i < self.channels@.len() ==> #[trigger] self.channels@[i].wf()
    }

    /// A tee with no sinks yet.
    pub fn new(filter: LevelFilter) -> (r: DrainTee)
        ensures
            r.wf(),
            r@.filter == filter@,
            r@.channels.len() == 0,
    {
        let r = DrainTee { filter, channels: Vec::new() };
        assert(r@.channels =~= Seq::<ChannelView>::empty());
        r
    }

    /// Registers one more sink, behind an empty channel of `capacity`.
    pub fn push(&mut self, capacity: usize)
        requires
            old(self).wf(),
        ensures
            final(self).wf(),
            final(self)@.filter == old(self)@.filter,
            final(self)@.channels.len() == old(self)@.channels.len() + 1,
            final(self)@.channels.drop_last() == old(self)@.channels,
            final(self)@.channels.last() == (ChannelView {
                accepted: Seq::empty(),
                taken: 0,
                capacity: capacity as nat,
                dropped: 0,
                failed: 0,
                closed: false,
            }),
    {
        let c = Channel::new(capacity);
        assert(c@.accepted =~= Seq::<RecordView>::empty());
        self.channels.push(c);
        assert(final(self)@.channels.drop_last() =~= old(self)@.channels);
    }

    /// Submits `r`: when it passes the filter, every channel is offered a copy,
    /// in registration order; otherwise no channel sees it. Returns whether
    /// it passed.
    pub fn submit(&mut self, r: &Record) -> (passed: bool)
        requires
            old(self).wf(),
        ensures
            final(self).wf(),
            final(self)@ == old(self)@.submitted(r@),
            passed == old(self)@.admits(r@),
    {
        if !self.filter.should_emit(r.scope.as_str(), r.level) {
            return false;
        }
        let ghost before = self@;
        let n = self.channels.len();
        for i in 0..n
            invariant
                n == self.channels@.len(),
                self.wf(),
                self@.filter == before.filter,
                self@.channels.len() == before.channels.len(),
                forall|j: int| 0 <= j < i ==> #[trigger] self.channels@[j]@ == before.channels[j].enqueued(r@),
                forall|j: int| i <= j < n ==> #[trigger] self.channels@[j]@ == before.channels[j],
        {
            let copy = r.duplicate();
            let ghost prev = self.channels@;
            let c = &mut self.channels[i];
            c.enqueue(copy);
            assert(forall|j: int| 0 <= j < n && j != i ==> self.channels@[j] == prev[j]);
        }
        assert(self@.channels =~= before.submitted(r@).channels);
        true
    }

    /// The worker of sink `i` asks what to do next (see `Channel::worker_step`).
    pub fn worker_step(&mut self, i: usize) -> (action: WorkerAction)
        requires
            old(self).wf(),
            i < old(self)@.channels.len(),
        ensures
            final(self).wf(),
            final(self)@.filter == old(self)@.filter,
            final(self)@.channels.len() == old(self)@.channels.len(),
            forall|j: int| 0 <= j < old(self)@.channels.len() && j != i
                ==> #[trigger] final(self)@.channels[j] == old(self)@.channels[j],
            old(self)@.channels[i as int].pending().len() > 0 ==> {
                &&& action matches WorkerAction::Deliver(r)
                &&& r@ == old(self)@.channels[i as int].pending()[0]
                &&& final(self)@.channels[i as int] == (ChannelView {
                    taken: old(self)@.channels[i as int].taken + 1,
                    ..old(self)@.channels[i as int]
                })
            },
            old(self)@.channels[i as int].pending().len() == 0 ==> {
                &&& final(self)@ == old(self)@
                &&& (if old(self)@.channels[i as int].closed {
                    action is Exit
                } else {
                    action is Wait
                })
            },
    {
        let ghost before = self@;
        let c = &mut self.channels[i];
        let a = c.worker_step();
        proof {
            if before.channels[i as int].pending().len() == 0 {
                assert(self@.channels =~= before.channels);
            }
        }
        a
    }

    /// Sink `i` reports the outcome of one delivery. Only its own failure
    /// count can change.
    pub fn report(&mut self, i: usize, ok: bool)
        requires
            old(self).wf(),
            i < old(self)@.channels.len(),
        ensures
            final(self).wf(),
            final(self)@ == old(self)@.with_channel(i as int, old(self)@.channels[i as int].reported(ok)),
    {
        let ghost before = self@;
        let c = &mut self.channels[i];
        c.report(ok);
        assert(self@.channels =~= before.channels.update(i as int, before.channels[i as int].reported(ok)));
    }

    /// Closes every channel, in registration order.
    pub fn close_all(&mut self)
        requires
            old(self).wf(),
        ensures
            final(self).wf(),
            final(self)@.filter == old(self)@.filter,
            final(self)@.channels.len() == old(self)@.channels.len(),
            forall|j: int| 0 <= j < old(self)@.channels.len()
                ==> #[trigger] final(self)@.channels[j] == (ChannelView { closed: true, ..old(self)@.channels[j] }),
    {
        let ghost before = self@;
        let n = self.channels.len();
        for i in 0..n
            invariant
                n == self.channels@.len(),
                self.wf(),
                self@.filter == before.filter,
                self@.channels.len() == before.channels.len(),
                forall|j: int| 0 <= j < i ==> #[trigger] self.channels@[j]@ == (ChannelView { closed: true, ..before.channels[j] }),
                forall|j: int| i <= j < n ==> #[trigger] self.channels@[j]@ == before.channels[j],
        {
            let ghost prev = self.channels@;
            let c = &mut self.channels[i];
            c.close();
            assert(forall|j: int| 0 <= j < n && j != i ==> self.channels@[j] == prev[j]);
        }
    }

    /// The number of registered sinks.
    pub fn len(&self) -> (r: usize)
        ensures
            r as nat == self@.channels.len(),
    {
        self.channels.len()
    }

    /// Records sink `i` lost because its queue was full.
    pub fn dropped(&self, i: usize) -> (r: u64)
        requires
            i < self@.channels.len(),
        ensures
            r as nat == self@.channels[i as int].dropped,
    {
        self.channels[i].dropped()
    }

    /// Deliveries sink `i` reported as failed.
    pub fn failed(&self, i: usize) -> (r: u64)
        requires
            i < self@.channels.len(),
        ensures
            r as nat == self@.channels[i as int].failed,
    {
        self.channels[i].failed()
    }

    /// Records waiting in the queue of sink `i`.
    pub fn pending(&self, i: usize) -> (r: usize)
        requires
            self.wf(),
            i < self@.channels.len(),
        ensures
            r as nat == self@.channels[i as int].pending().len(),
    {
        self.channels[i].len()
    }
}

} // verus!
