use crate::channel::{ChannelView, WorkerAction};
use crate::filter::LevelFilter;
use crate::record::{Record, RecordView};
use crate::tee::{DrainTee, TeeView};
use vstd::prelude::*;

verus! {

/// Life cycle of the process-wide logger.
#[derive(Clone, Copy, Debug, PartialEq, Eq, Structural)]
pub enum Phase {
    /// Sinks are being registered; nothing is emitted yet.
    Uninitialized,
    /// Records are fanned out to the sinks.
    Active,
    /// The channels are closed; workers drain them and guards are released.
    ShuttingDown,
    /// Everything is released; emitting does nothing.
    Terminated,
}

/// One step of the shutdown sequence, for whoever runs the workers.
#[derive(Clone, Copy, Debug, PartialEq, Eq, Structural)]
pub enum Step {
    /// Wait (with a bounded timeout) for the worker of sink `i` to drain its
    /// closed queue and end.
    Drain(usize),
    /// Tear down the external client guarded alongside sink `i`.
    Release(usize),
}

/// The pipeline behind the global logger: a tee of sinks, which of them hold
/// a resource guard, and the phase.
pub struct Logger {
    phase: Phase,
    tee: DrainTee,
    guarded: Vec<bool>,
}

pub struct LoggerView {
    pub phase: Phase,
    pub tee: TeeView,
    pub guarded: Seq<bool>,
}

impl View for Logger {
    type V = LoggerView;

    closed spec fn view(&self) -> LoggerView {
        LoggerView { phase: self.phase, tee: self.tee@, guarded: self.guarded@ }
    }
}

/// Waiting for every worker, in registration order.
pub open spec fn drain_steps(n: nat) -> Seq<Step> {
    Seq::new(n, |i: int| Step::Drain(i as usize))
}

/// Releasing every guard, in registration order.
pub open spec fn release_steps(guarded: Seq<bool>) -> Seq<Step>
    decreases guarded.len(),
{
    if guarded.len() == 0 {
        Seq::empty()
    } else {
        let prev = release_steps(guarded.drop_last());
        if guarded.last() {
            prev.push(Step::Release((guarded.len() - 1) as usize))
        } else {
            prev
        }
    }
}

/// The sequence that shuts down `n` sinks whose guards are `guarded`.
pub open spec fn shutdown_steps(n: nat, guarded: Seq<bool>) -> Seq<Step> {
    drain_steps(n) + release_steps(guarded)
}

impl LoggerView {
    pub open spec fn emitted(self, r: RecordView) -> LoggerView {
        if self.phase == Phase::Active {
            LoggerView { tee: self.tee.submitted(r), ..self }
        } else {
            self
        }
    }

    /// The state after a teardown request, and the steps it hands out. Only
    /// the first request does anything.
    pub open spec fn torn_down(self) -> (LoggerView, Seq<Step>) {
        if self.phase == Phase::Uninitialized || self.phase == Phase::Active {
            (
                LoggerView {
                    phase: Phase::ShuttingDown,
                    tee: TeeView {
                        channels: Seq::new(
                            self.tee.channels.len(),
                            |j: int| ChannelView { closed: true, ..self.tee.channels[j] },
                        ),
                        ..self.tee
                    },
                    ..self
                },
                shutdown_steps(self.tee.channels.len(), self.guarded),
            )
        } else {
            (self, Seq::empty())
        }
    }
}

impl Logger {
    pub closed spec fn wf(&self) -> bool {
        &&& self.tee.wf()
        &&& self.guarded@.len() == self.tee@.channels.len()
    }

    /// A logger in the `Uninitialized` phase, with no sinks yet.
    pub fn new(filter: LevelFilter) -> (r: Logger)
        ensures
            r.wf(),
            r@.phase == Phase::Uninitialized,
            r@.tee.filter == filter@,
            r@.tee.channels.len() == 0,
            r@.guarded.len() == 0,
    {
        Logger { phase: Phase::Uninitialized, tee: DrainTee::new(filter), guarded: Vec::new() }
    }

    /// Registers a sink behind a channel of `capacity`; `guarded` says
    /// whether it comes with an external client to tear down at shutdown.
    /// Sinks can only be added before the logger is activated.
    pub fn add_sink(&mut self, capacity: usize, guarded: bool) -> (added: bool)
        requires
            old(self).wf(),
        ensures
            final(self).wf(),
            added == (old(self)@.phase == Phase::Uninitialized),
            !added ==> final(self)@ == old(self)@,
            added ==> {
                &&& final(self)@.phase == old(self)@.phase
                &&& final(self)@.guarded == old(self)@.guarded.push(guarded)
                &&& final(self)@.tee.filter == old(self)@.tee.filter
                &&& final(self)@.tee.channels.len() == old(self)@.tee.channels.len() + 1
                &&& final(self)@.tee.channels.drop_last() == old(self)@.tee.channels
                &&& final(self)@.tee.channels.last() == (ChannelView {
                    accepted: Seq::empty(),
                    taken: 0,
                    capacity: capacity as nat,
                    dropped: 0,
                    failed: 0,
                    closed: false,
                })
            },
    {
        if self.phase != Phase::Uninitialized {
            return false;
        }
        self.tee.push(capacity);
        self.guarded.push(guarded);
        true
    }

    /// Moves from `Uninitialized` to `Active`; in any other phase it does
    /// nothing and returns false.
    pub fn activate(&mut self) -> (activated: bool)
        requires
            old(self).wf(),
        ensures
            final(self).wf(),
            activated == (old(self)@.phase == Phase::Uninitialized),
            final(self)@ == (if activated {
                LoggerView { phase: Phase::Active, ..old(self)@ }
            } else {
                old(self)@
            }),
    {
        if self.phase != Phase::Uninitialized {
            return false;
        }
        self.phase = Phase::Active;
        true
    }

    /// Emits `r`: while active it goes through the filter to every sink;
    /// in any other phase nothing happens. Returns whether it passed the
    /// filter while active.
    pub fn emit(&mut self, r: &Record) -> (passed: bool)
        requires
            old(self).wf(),
        ensures
            final(self).wf(),
            final(self)@ == old(self)@.emitted(r@),
            passed == (old(self)@.phase == Phase::Active && old(self)@.tee.admits(r@)),
    {
        if self.phase != Phase::Active {
            return false;
        }
        self.tee.submit(r)
    }

    /// The worker of sink `i` asks what to do next.
    pub fn worker_step(&mut self, i: usize) -> (action: WorkerAction)
        requires
            old(self).wf(),
            i < old(self)@.tee.channels.len(),
        ensures
            final(self).wf(),
            final(self)@.phase == old(self)@.phase,
            final(self)@.guarded == old(self)@.guarded,
            final(self)@.tee.filter == old(self)@.tee.filter,
            final(self)@.tee.channels.len() == old(self)@.tee.channels.len(),
            forall|j: int| 0 <= j < old(self)@.tee.channels.len() && j != i
                ==> #[trigger] final(self)@.tee.channels[j] == old(self)@.tee.channels[j],
            old(self)@.tee.channels[i as int].pending().len() > 0 ==> {
                &&& action matches WorkerAction::Deliver(r)
                &&& r@ == old(self)@.tee.channels[i as int].pending()[0]
                &&& final(self)@.tee.channels[i as int] == (ChannelView {
                    taken: old(self)@.tee.channels[i as int].taken + 1,
                    ..old(self)@.tee.channels[i as int]
                })
            },
            old(self)@.tee.channels[i as int].pending().len() == 0 ==> {
                &&& final(self)@ == old(self)@
                &&& (if old(self)@.tee.channels[i as int].closed {
                    action is Exit
                } else {
                    action is Wait
                })
            },
    {
        self.tee.worker_step(i)
    }

    /// Sink `i` reports the outcome of one delivery.
    pub fn report(&mut self, i: usize, ok: bool)
        requires
            old(self).wf(),
            i < old(self)@.tee.channels.len(),
        ensures
            final(self).wf(),
            final(self)@ == (LoggerView {
                tee: old(self)@.tee.with_channel(i as int, old(self)@.tee.channels[i as int].reported(ok)),
                ..old(self)@
            }),
    {
        self.tee.report(i, ok)
    }

    /// Starts the shutdown: closes every channel and hands out the steps
    /// that finish it, every worker drained first and then every guard
    /// released, each in registration order. A second request hands out
    /// nothing and changes nothing.
    pub fn teardown(&mut self) -> (steps: Vec<Step>)
        requires
            old(self).wf(),
        ensures
            final(self).wf(),
            (final(self)@, steps@) == old(self)@.torn_down(),
    {
        if self.phase != Phase::Uninitialized && self.phase != Phase::Active {
            return Vec::new();
        }
        let ghost before = self@;
        self.tee.close_all();
        self.phase = Phase::ShuttingDown;
        assert(self@.tee.channels =~= before.torn_down().0.tee.channels);
        let n = self.guarded.len();
        let mut steps: Vec<Step> = Vec::new();
        for i in 0..n
            invariant
                n == self.guarded@.len(),
                steps@ =~= drain_steps(i as nat),
        {
            steps.push(Step::Drain(i));
        }
        let ghost g = self.guarded@;
        for i in 0..n
            invariant
                n == g.len(),
                g == self.guarded@,
                steps@ =~= drain_steps(n as nat) + release_steps(g.take(i as int)),
        {
            assert(g.take(i + 1).drop_last() =~= g.take(i as int));
            if self.guarded[i] {
                steps.push(Step::Release(i));
            }
        }
        assert(g.take(n as int) =~= g);
        steps
    }

    /// Ends the shutdown once its steps are done: `ShuttingDown` becomes
    /// `Terminated`; any other phase stays as it is.
    pub fn finish(&mut self)
        requires
            old(self).wf(),
        ensures
            final(self).wf(),
            final(self)@ == (if old(self)@.phase == Phase::ShuttingDown {
                LoggerView { phase: Phase::Terminated, ..old(self)@ }
            } else {
                old(self)@
            }),
    {
        if self.phase == Phase::ShuttingDown {
            self.phase = Phase::Terminated;
        }
    }

    pub fn phase(&self) -> (r: Phase)
        ensures
            r == self@.phase,
    {
        self.phase
    }

    /// The number of registered sinks.
    pub fn sink_count(&self) -> (r: usize)
        requires
            self.wf(),
        ensures
            r as nat == self@.tee.channels.len(),
    {
        self.tee.len()
    }

    /// Records sink `i` lost because its queue was full.
    pub fn dropped(&self, i: usize) -> (r: u64)
        requires
            i < self@.tee.channels.len(),
        ensures
            r as nat == self@.tee.channels[i as int].dropped,
    {
        self.tee.dropped(i)
    }

    /// Deliveries sink `i` reported as failed.
    pub fn failed(&self, i: usize) -> (r: u64)
        requires
            i < self@.tee.channels.len(),
        ensures
            r as nat == self@.tee.channels[i as int].failed,
    {
        self.tee.failed(i)
    }

    /// Records waiting in the queue of sink `i`.
    pub fn pending(&self, i: usize) -> (r: usize)
        requires
            self.wf(),
            i < self@.tee.channels.len(),
        ensures
            r as nat == self@.tee.channels[i as int].pending().len(),
    {
        self.tee.pending(i)
    }
}

} // verus!
