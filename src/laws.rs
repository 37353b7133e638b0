use crate::channel::{bump, ChannelView};
use crate::filter::FilterView;
use crate::level::Severity;
use crate::logger::{release_steps, shutdown_steps, LoggerView, Phase, Step};
use crate::record::RecordView;
use crate::tee::TeeView;
use vstd::prelude::*;

verus! {

/// The logger after `rs` is emitted, in order.
pub open spec fn emit_all(s: LoggerView, rs: Seq<RecordView>) -> LoggerView
    decreases rs.len(),
{
    if rs.len() == 0 {
        s
    } else {
        emit_all(s, rs.drop_last()).emitted(rs.last())
    }
}

/// The records of `rs` that pass `f`, in order.
pub open spec fn passing(f: FilterView, rs: Seq<RecordView>) -> Seq<RecordView>
    decreases rs.len(),
{
    if rs.len() == 0 {
        Seq::empty()
    } else {
        let p = passing(f, rs.drop_last());
        if f.admits(rs.last().scope, rs.last().level) {
            p.push(rs.last())
        } else {
            p
        }
    }
}

/// While the logger is active and no queue fills up, emitting a sequence of
/// records appends exactly the records that pass the filter, in emission
/// order, to every sink's queue; nothing else changes.
pub proof fn lemma_passing_records_reach_every_sink(s: LoggerView, rs: Seq<RecordView>)
    requires
        s.phase == Phase::Active,
        forall|i: int| 0 <= i < s.tee.channels.len() ==> {
            &&& !(#[trigger] s.tee.channels[i]).closed
            &&& s.tee.channels[i].taken <= s.tee.channels[i].accepted.len()
            &&& s.tee.channels[i].pending().len() + passing(s.tee.filter, rs).len() <= s.tee.channels[i].capacity
        },
    ensures
        emit_all(s, rs).phase == s.phase,
        emit_all(s, rs).tee.filter == s.tee.filter,
        emit_all(s, rs).guarded == s.guarded,
        emit_all(s, rs).tee.channels.len() == s.tee.channels.len(),
        forall|i: int| 0 <= i < s.tee.channels.len() ==> #[trigger] emit_all(s, rs).tee.channels[i] == (ChannelView {
            accepted: s.tee.channels[i].accepted + passing(s.tee.filter, rs),
            ..s.tee.channels[i]
        }),
    decreases rs.len(),
{
    if rs.len() == 0 {
        assert forall|i: int| 0 <= i < s.tee.channels.len() implies #[trigger] emit_all(s, rs).tee.channels[i] == (ChannelView {
            accepted: s.tee.channels[i].accepted + passing(s.tee.filter, rs),
            ..s.tee.channels[i]
        }) by {
            assert(s.tee.channels[i].accepted + passing(s.tee.filter, rs) =~= s.tee.channels[i].accepted);
        }
    } else {
        let init = rs.drop_last();
        let r = rs.last();
        lemma_passing_records_reach_every_sink(s, init);
        let prev = emit_all(s, init);
        let f = s.tee.filter;
        assert forall|i: int| 0 <= i < s.tee.channels.len() implies #[trigger] emit_all(s, rs).tee.channels[i] == (ChannelView {
            accepted: s.tee.channels[i].accepted + passing(f, rs),
            ..s.tee.channels[i]
        }) by {
            let c = s.tee.channels[i];
            let pc = prev.tee.channels[i];
            assert(pc.accepted == c.accepted + passing(f, init));
            if f.admits(r.scope, r.level) {
                assert(pc.pending().len() == c.pending().len() + passing(f, init).len());
                assert(c.accepted + passing(f, rs) =~= pc.accepted.push(r));
            }
        }
    }
}

/// No record that fails the filter ever enters a sink's queue: whatever a
/// sequence of emits adds to a queue passes the filter, and what was queued
/// before stays.
pub proof fn lemma_filtered_records_reach_no_sink(s: LoggerView, rs: Seq<RecordView>)
    ensures
        emit_all(s, rs).tee.filter == s.tee.filter,
        emit_all(s, rs).tee.channels.len() == s.tee.channels.len(),
        forall|i: int| 0 <= i < s.tee.channels.len() ==> {
            let before = s.tee.channels[i].accepted;
            let after = (#[trigger] emit_all(s, rs).tee.channels[i]).accepted;
            &&& before.len() <= after.len()
            &&& after.take(before.len() as int) == before
            &&& forall|k: int| before.len() <= k < after.len()
                ==> s.tee.filter.admits(#[trigger] after[k].scope, after[k].level)
        },
    decreases rs.len(),
{
    if rs.len() > 0 {
        let init = rs.drop_last();
        lemma_filtered_records_reach_no_sink(s, init);
        let prev = emit_all(s, init);
        assert forall|i: int| 0 <= i < s.tee.channels.len() implies {
            let before = s.tee.channels[i].accepted;
            let after = (#[trigger] emit_all(s, rs).tee.channels[i]).accepted;
            &&& before.len() <= after.len()
            &&& after.take(before.len() as int) == before
            &&& forall|k: int| before.len() <= k < after.len()
                ==> s.tee.filter.admits(#[trigger] after[k].scope, after[k].level)
        } by {
            let before = s.tee.channels[i].accepted;
            let mid = prev.tee.channels[i].accepted;
            let after = emit_all(s, rs).tee.channels[i].accepted;
            if after != mid {
                assert(after == mid.push(rs.last()));
                assert(after.take(before.len() as int) =~= mid.take(before.len() as int));
            }
        }
    } else {
        assert forall|i: int| 0 <= i < s.tee.channels.len() implies
            (#[trigger] emit_all(s, rs).tee.channels[i]).accepted.take(s.tee.channels[i].accepted.len() as int)
                == s.tee.channels[i].accepted by {
            assert(s.tee.channels[i].accepted.take(s.tee.channels[i].accepted.len() as int) =~= s.tee.channels[i].accepted);
        }
    }
}

/// A sink whose queue is empty has been handed every record it accepted,
/// in the order it accepted them.
pub proof fn lemma_drained_sink_saw_everything(c: ChannelView)
    requires
        c.taken <= c.accepted.len(),
        c.pending().len() == 0,
    ensures
        c.delivered() == c.accepted,
{
    assert(c.delivered() =~= c.accepted);
}

/// A worker's step hands its sink the oldest waiting record: what a sink has
/// been handed grows by that record alone, so each sink sees its records in
/// the order its queue accepted them.
pub proof fn lemma_worker_keeps_order(c: ChannelView)
    requires
        c.taken <= c.accepted.len(),
        c.pending().len() > 0,
    ensures
        (ChannelView { taken: c.taken + 1, ..c }).delivered() == c.delivered().push(c.pending()[0]),
{
    assert((ChannelView { taken: c.taken + 1, ..c }).delivered() =~= c.delivered().push(c.pending()[0]));
}

/// One record that passes the filter, emitted while every queue is open and
/// has room, lands exactly once in every sink's queue, the same record in
/// each.
pub proof fn lemma_one_copy_per_sink(s: LoggerView, r: RecordView)
    requires
        s.phase == Phase::Active,
        s.tee.admits(r),
        forall|i: int| 0 <= i < s.tee.channels.len() ==> {
            &&& (#[trigger] s.tee.channels[i]).has_room()
            &&& s.tee.channels[i].taken <= s.tee.channels[i].accepted.len()
        },
    ensures
        s.emitted(r).tee.channels.len() == s.tee.channels.len(),
        forall|i: int| 0 <= i < s.tee.channels.len() ==> {
            &&& (#[trigger] s.emitted(r).tee.channels[i]).accepted == s.tee.channels[i].accepted.push(r)
            &&& s.emitted(r).tee.channels[i].pending() == s.tee.channels[i].pending().push(r)
        },
{
    assert forall|i: int| 0 <= i < s.tee.channels.len() implies
        (#[trigger] s.emitted(r).tee.channels[i]).pending() == s.tee.channels[i].pending().push(r) by {
        let c = s.tee.channels[i];
        assert(c.accepted.push(r).skip(c.taken as int) =~= c.pending().push(r));
    }
}

/// Sink `i` reporting `k` failures in a row.
pub open spec fn fail_times(t: TeeView, i: int, k: nat) -> TeeView
    decreases k,
{
    if k == 0 {
        t
    } else {
        let p = fail_times(t, i, (k - 1) as nat);
        p.with_channel(i, p.channels[i].reported(false))
    }
}

/// Failures of one sink are each counted once, on that sink alone, and do
/// not change what any sink is handed next: every sink's queue takes a
/// following record exactly as it would without those failures.
pub proof fn lemma_failures_isolated(t: TeeView, i: int, k: nat, r: RecordView)
    requires
        0 <= i < t.channels.len(),
        t.channels[i].failed + k <= u64::MAX,
    ensures
        fail_times(t, i, k).filter == t.filter,
        fail_times(t, i, k).channels.len() == t.channels.len(),
        fail_times(t, i, k).channels[i] == (ChannelView { failed: t.channels[i].failed + k, ..t.channels[i] }),
        forall|j: int| 0 <= j < t.channels.len() && j != i ==> #[trigger] fail_times(t, i, k).channels[j] == t.channels[j],
        forall|j: int| 0 <= j < t.channels.len() ==> (#[trigger] fail_times(t, i, k).submitted(r).channels[j]).accepted
            == t.submitted(r).channels[j].accepted,
    decreases k,
{
    if k > 0 {
        lemma_failures_isolated(t, i, (k - 1) as nat, r);
    }
    let u = fail_times(t, i, k);
    assert forall|j: int| 0 <= j < t.channels.len() implies (#[trigger] u.submitted(r).channels[j]).accepted
        == t.submitted(r).channels[j].accepted by {
        if j != i {
            assert(u.channels[j] == t.channels[j]);
        } else {
            assert(u.channels[j].pending() == t.channels[j].pending());
        }
    }
}

/// A sink whose queue is full loses the record and counts it, without
/// holding up the others: every other sink with room takes the record.
pub proof fn lemma_full_sink_isolated(s: LoggerView, r: RecordView, i: int)
    requires
        s.phase == Phase::Active,
        s.tee.admits(r),
        0 <= i < s.tee.channels.len(),
        !s.tee.channels[i].closed,
        s.tee.channels[i].pending().len() >= s.tee.channels[i].capacity,
    ensures
        s.emitted(r).tee.channels[i] == (ChannelView { dropped: bump(s.tee.channels[i].dropped), ..s.tee.channels[i] }),
        forall|j: int| 0 <= j < s.tee.channels.len() && j != i && (#[trigger] s.tee.channels[j]).has_room()
            ==> s.emitted(r).tee.channels[j].accepted == s.tee.channels[j].accepted.push(r),
{
}

/// Tearing down twice has the effect of tearing down once: the second
/// request hands out no step and changes nothing, also once the shutdown has
/// finished.
pub proof fn lemma_teardown_idempotent(s: LoggerView)
    ensures
        s.torn_down().0.torn_down() == (s.torn_down().0, Seq::<Step>::empty()),
        (LoggerView { phase: Phase::Terminated, ..s.torn_down().0 }).torn_down().1 == Seq::<Step>::empty(),
{
}

/// The release steps name guarded sinks only, in increasing order, and every
/// guarded sink once.
pub proof fn lemma_release_steps(g: Seq<bool>)
    requires
        g.len() <= usize::MAX,
    ensures
        forall|m: int| 0 <= m < release_steps(g).len() ==> {
            &&& (#[trigger] release_steps(g)[m]) matches Step::Release(j)
            &&& j < g.len()
            &&& g[j as int]
        },
        forall|m1: int, m2: int| 0 <= m1 < m2 < release_steps(g).len() ==> {
            &&& (#[trigger] release_steps(g)[m1]) matches Step::Release(j1)
            &&& (#[trigger] release_steps(g)[m2]) matches Step::Release(j2)
            &&& j1 < j2
        },
        forall|j: int| 0 <= j < g.len() && #[trigger] g[j] ==> release_steps(g).contains(Step::Release(j as usize)),
    decreases g.len(),
{
    if g.len() > 0 {
        let init = g.drop_last();
        lemma_release_steps(init);
        let p = release_steps(init);
        assert forall|j: int| 0 <= j < g.len() && #[trigger] g[j] implies release_steps(g).contains(Step::Release(j as usize)) by {
            if j < init.len() {
                assert(init[j] == g[j]);
                let m = choose|m: int| 0 <= m < p.len() && p[m] == Step::Release(j as usize);
                assert(release_steps(g)[m] == Step::Release(j as usize));
            } else {
                assert(release_steps(g)[release_steps(g).len() - 1] == Step::Release(j as usize));
            }
        }
        assert forall|m: int| 0 <= m < release_steps(g).len() implies {
            &&& (#[trigger] release_steps(g)[m]) matches Step::Release(j)
            &&& j < g.len()
            &&& g[j as int]
        } by {
            if m < p.len() {
                assert(release_steps(g)[m] == p[m]);
                if let Step::Release(j) = p[m] {
                    assert(init[j as int] == g[j as int]);
                }
            }
        }
    }
}

/// Shutting down drains every worker, in registration order, before any
/// guard is released; each guarded sink is released exactly once, and no
/// other.
pub proof fn lemma_guards_released_once_after_drain(n: nat, g: Seq<bool>)
    requires
        g.len() == n,
        n <= usize::MAX,
    ensures
        forall|m: int| 0 <= m < n ==> #[trigger] shutdown_steps(n, g)[m] == Step::Drain(m as usize),
        forall|m: int| n <= m < shutdown_steps(n, g).len() ==> (#[trigger] shutdown_steps(n, g)[m]) is Release,
        forall|m1: int, m2: int|
            0 <= m1 < shutdown_steps(n, g).len() && 0 <= m2 < shutdown_steps(n, g).len()
            && (#[trigger] shutdown_steps(n, g)[m1]) is Release
            && shutdown_steps(n, g)[m1] == #[trigger] shutdown_steps(n, g)[m2] ==> m1 == m2,
        forall|j: int| 0 <= j < n ==> (#[trigger] g[j] <==> shutdown_steps(n, g).contains(Step::Release(j as usize))),
{
    lemma_release_steps(g);
    let rs = release_steps(g);
    let ss = shutdown_steps(n, g);
    assert forall|m: int| n <= m < ss.len() implies (#[trigger] ss[m]) is Release by {
        assert(ss[m] == rs[m - n]);
    }
    assert forall|m1: int, m2: int|
        0 <= m1 < ss.len() && 0 <= m2 < ss.len()
        && (#[trigger] ss[m1]) is Release
        && ss[m1] == #[trigger] ss[m2] implies m1 == m2 by {
        if m1 < m2 {
            assert(ss[m1] == rs[m1 - n]);
            assert(ss[m2] == rs[m2 - n]);
        } else if m2 < m1 {
            assert(ss[m1] == rs[m1 - n]);
            assert(ss[m2] == rs[m2 - n]);
        }
    }
    assert forall|j: int| 0 <= j < n implies (#[trigger] g[j] <==> ss.contains(Step::Release(j as usize))) by {
        if g[j] {
            let m = choose|m: int| 0 <= m < rs.len() && rs[m] == Step::Release(j as usize);
            assert(ss[m + n] == Step::Release(j as usize));
        }
        if ss.contains(Step::Release(j as usize)) {
            let m = choose|m: int| 0 <= m < ss.len() && ss[m] == Step::Release(j as usize);
            assert(ss[m] == rs[m - n]);
        }
    }
}

/// The filter is monotonic: where a record of some severity passes, every
/// more severe record of the same scope passes too.
pub proof fn lemma_filter_monotonic(f: FilterView, scope: Seq<char>, level: Severity, worse: Severity)
    requires
        f.admits(scope, level),
        worse.index() <= level.index(),
    ensures
        f.admits(scope, worse),
{
}

} // verus!
