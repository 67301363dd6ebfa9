//! What holds of waiting: which drafts a reading lets go, and which it never does.

use vstd::prelude::*;

use crate::laws::changes::{
    found_under_its_id, observing_only_latches, put_is_read_back, Change,
};
use crate::laws::lists::the_queue_is_what_may_go;
use crate::models::{usage_of, DraftView, ReadingsView, TriggerView};
use crate::percent::Percent;
use crate::store::{holds, place, StoreView};
use crate::text::is_blank;

verus! {

/// Work was seen running on the node.
pub open spec fn busy(r: ReadingsView) -> bool {
    r.running matches Some(n) && n > 0
}

/// The node was seen, with nothing running.
pub open spec fn quiet(r: ReadingsView) -> bool {
    r.running == Some(0u32)
}

/// A draft without a condition never goes out by itself.
pub proof fn manual_never_fires(r: ReadingsView, seen_busy: bool)
    ensures
        !TriggerView::Manual.satisfied(r, seen_busy),
{
}

/// Every missing reading holds the draft that depends on it: an unknown run count holds every
/// draft that waits for runs, and an agent that was not read holds every draft that waits for
/// its usage.
pub proof fn an_unknown_reading_holds_the_draft(t: TriggerView, r: ReadingsView, seen_busy: bool)
    requires
        match t {
            TriggerView::Manual => true,
            TriggerView::Concurrency { .. } => r.running is None,
            TriggerView::AllDone => r.running is None,
            TriggerView::UsageReset { agent_id, .. } => forall|i: int|
                0 <= i < r.usage.len() ==> (#[trigger] r.usage[i]).0 != agent_id,
            TriggerView::At { .. } => false,
        },
    ensures
        !t.satisfied(r, seen_busy),
{
    match t {
        TriggerView::UsageReset { agent_id, .. } => {
            unread_usage_is_unknown(r.usage, agent_id);
        },
        _ => {},
    }
}

/// The usage of an agent that was not read is unknown.
pub proof fn unread_usage_is_unknown(
    usage: Seq<(Seq<char>, Percent)>,
    agent_id: Seq<char>,
)
    requires
        forall|i: int| 0 <= i < usage.len() ==> (#[trigger] usage[i]).0 != agent_id,
    ensures
        usage_of(usage, agent_id) is None,
    decreases usage.len(),
{
    if usage.len() > 0 {
        assert(usage[0].0 != agent_id);
        assert forall|i: int| 0 <= i < usage.drop_first().len() implies (
        #[trigger] usage.drop_first()[i]).0 != agent_id by {
            assert(usage.drop_first()[i] == usage[i + 1]);
        }
        unread_usage_is_unknown(usage.drop_first(), agent_id);
    }
}

/// Only the wait for everything to finish reads the latch: every other condition is a
/// function of the readings.
pub proof fn only_all_done_reads_the_latch(t: TriggerView, r: ReadingsView)
    requires
        !(t is AllDone),
    ensures
        t.satisfied(r, true) == t.satisfied(r, false),
{
}

/// Waiting for everything to finish is more than waiting for nothing to run: where the former
/// fires the latter does, and on a quiet node that was not seen busy only the latter does.
pub proof fn all_done_is_not_below_one(r: ReadingsView)
    ensures
        forall|seen_busy: bool|
            #[trigger] TriggerView::AllDone.satisfied(r, seen_busy) ==> (TriggerView::Concurrency {
                below: 1,
            }).satisfied(r, seen_busy),
        quiet(r) ==> (TriggerView::Concurrency { below: 1 }).satisfied(r, false)
            && !TriggerView::AllDone.satisfied(r, false),
{
}

/// Where a draft that waits for runs may go, it may go with fewer runs, and with a higher
/// ceiling.
pub proof fn fewer_runs_let_more_go(
    below: u32,
    higher: u32,
    r: ReadingsView,
    calmer: ReadingsView,
    seen_busy: bool,
)
    requires
        (TriggerView::Concurrency { below }).satisfied(r, seen_busy),
        calmer.running matches Some(n) && n <= r.running->0,
        below <= higher,
    ensures
        (TriggerView::Concurrency { below: higher }).satisfied(calmer, seen_busy),
{
}

/// A set time that has come stays come.
pub proof fn a_time_that_has_come_stays_come(
    epoch_ms: i64,
    r: ReadingsView,
    later: ReadingsView,
    seen_busy: bool,
)
    requires
        r.now_ms <= later.now_ms,
        (TriggerView::At { epoch_ms }).satisfied(r, seen_busy),
    ensures
        (TriggerView::At { epoch_ms }).satisfied(later, seen_busy),
{
}

/// Latching before judging never makes a draft go early: on a reading of a busy node no draft
/// that waits for everything to finish is in the queue.
pub proof fn a_busy_tick_releases_no_all_done(s: StoreView, r: ReadingsView, d: DraftView)
    requires
        busy(r),
        s.observe(r).releasable(r).contains(d),
    ensures
        !(d.trigger is AllDone),
{
    the_queue_is_what_may_go(s.observe(r), r);
}

/// No draft has seen the node busy.
pub open spec fn nothing_seen(s: StoreView) -> bool {
    forall|i: int| 0 <= i < s.rows.len() ==> !(#[trigger] s.rows[i]).seen_busy
}

/// Nothing but a reading of a busy node sets a latch.
pub proof fn only_a_busy_reading_latches(s: StoreView, change: Change, now: i64)
    requires
        nothing_seen(s),
        change matches Change::Observe { readings } ==> !busy(readings),
    ensures
        nothing_seen(s.after(change, now)),
{
    let t = s.after(change, now);
    assert forall|i: int| 0 <= i < t.rows.len() implies !(#[trigger] t.rows[i]).seen_busy by {
        match change {
            Change::Save { draft } => {
                if holds(s.rows, draft.id) {
                    let p = place(s.rows, draft.id);
                    assert(s.rows[p].id == draft.id);
                    assert(!s.rows[p].seen_busy);
                    if is_blank(draft.text) {
                        let i0 = if i < p { i } else { i + 1 };
                        assert(t.rows[i] == s.rows[i0]);
                    } else if i != p {
                        assert(t.rows[i] == s.rows[i]);
                    }
                } else if i < s.rows.len() {
                    assert(t.rows[i] == s.rows[i]);
                }
            },
            Change::SetTrigger { id, .. } => {
                lemma_one_row(s, id, i);
            },
            Change::Claim { id } => {
                lemma_one_row(s, id, i);
            },
            Change::Sent { id, .. } => {
                lemma_one_row(s, id, i);
            },
            Change::Failed { id, .. } => {
                lemma_one_row(s, id, i);
            },
            Change::Delete { id } => {
                if holds(s.rows, id) {
                    let p = place(s.rows, id);
                    assert(s.rows[p].id == id);
                    let i0 = if i < p { i } else { i + 1 };
                    assert(t.rows[i] == s.rows[i0]);
                } else {
                    assert(t.rows[i] == s.rows[i]);
                }
            },
            Change::DeleteAll => {},
            Change::Observe { readings } => {
                assert(t.rows[i] == s.rows[i]);
            },
            Change::Configure { settings } => {
                assert(t.rows[i] == s.rows[i]);
            },
        }
    }
}

/// What a change of one row touches.
proof fn lemma_one_row(s: StoreView, id: Seq<char>, i: int)
    requires
        nothing_seen(s),
    ensures
        holds(s.rows, id) ==> 0 <= place(s.rows, id) < s.rows.len() && s.rows[place(
            s.rows,
            id,
        )].id == id && !s.rows[place(s.rows, id)].seen_busy,
        0 <= i < s.rows.len() ==> !s.rows[i].seen_busy,
{
    if holds(s.rows, id) {
        assert(s.rows[place(s.rows, id)].id == id);
    }
}

/// Armed on a node where nothing ever starts, a draft that waits for everything to finish
/// waits forever: while no reading shows the node busy, whatever else happens and however
/// often the queue is asked, none is in it.
pub proof fn all_done_waits_for_work_to_start(
    s: StoreView,
    changes: Seq<(Change, i64)>,
    r: ReadingsView,
    d: DraftView,
)
    requires
        nothing_seen(s),
        forall|i: int|
            0 <= i < changes.len() ==> ((#[trigger] changes[i]).0 matches Change::Observe {
                readings,
            } ==> !busy(readings)),
        s.after_all(changes).observe(r).releasable(r).contains(d),
    ensures
        !(d.trigger is AllDone),
{
    lemma_nothing_seen_throughout(s, changes);
    let t = s.after_all(changes);
    if busy(r) {
        a_busy_tick_releases_no_all_done(t, r, d);
    } else {
        the_queue_is_what_may_go(t, r);
        let i = choose|i: int| 0 <= i < t.rows.len() && t.rows[i] == d;
        assert(!t.rows[i].seen_busy);
    }
}

/// While no reading shows the node busy, no latch is set.
proof fn lemma_nothing_seen_throughout(s: StoreView, changes: Seq<(Change, i64)>)
    requires
        nothing_seen(s),
        forall|i: int|
            0 <= i < changes.len() ==> ((#[trigger] changes[i]).0 matches Change::Observe {
                readings,
            } ==> !busy(readings)),
    ensures
        nothing_seen(s.after_all(changes)),
    decreases changes.len(),
{
    if changes.len() > 0 {
        let before = changes.drop_last();
        assert forall|i: int| 0 <= i < before.len() implies ((
        #[trigger] before[i]).0 matches Change::Observe { readings } ==> !busy(readings)) by {
            assert(before[i] == changes[i]);
        }
        lemma_nothing_seen_throughout(s, before);
        assert(changes[changes.len() - 1] == changes.last());
        only_a_busy_reading_latches(s.after_all(before), changes.last().0, changes.last().1);
    }
}

/// The outbox after a number of readings.
pub open spec fn observed(s: StoreView, readings: Seq<ReadingsView>) -> StoreView
    decreases readings.len(),
{
    if readings.len() == 0 {
        s
    } else {
        observed(s, readings.drop_last()).observe(readings.last())
    }
}

/// Busy and then quiet releases: an armed draft that waits for everything to finish is in the
/// queue on every reading of a quiet node that comes after one of a busy node, however many
/// readings lie between.
pub proof fn busy_then_quiet_releases(
    s: StoreView,
    id: Seq<char>,
    first: ReadingsView,
    between: Seq<ReadingsView>,
    last: ReadingsView,
)
    requires
        s.wf(),
        s.get(id) matches Some(d) && d.state is Armed && d.trigger is AllDone,
        busy(first),
        quiet(last),
    ensures
        observed(s.observe(first), between).observe(last).releasable(last).contains(
            DraftView { seen_busy: true, ..s.get(id)->0 },
        ),
{
    observing_only_latches(s, first);
    lemma_latch_stays(s.observe(first), id, between);
    let t = observed(s.observe(first), between);
    observing_only_latches(t, last);
    let d = DraftView { seen_busy: true, ..s.get(id)->0 };
    let u = t.observe(last);
    assert(u.get(id) == Some(d));
    assert(u.rows[place(u.rows, id)] == d);
    assert(u.rows.contains(d));
    the_queue_is_what_may_go(u, last);
}

/// A latch that is set stays set while the node is only read.
proof fn lemma_latch_stays(s: StoreView, id: Seq<char>, readings: Seq<ReadingsView>)
    requires
        s.wf(),
        s.get(id) matches Some(d) && d.seen_busy,
    ensures
        observed(s, readings).wf(),
        observed(s, readings).get(id) == s.get(id),
    decreases readings.len(),
{
    if readings.len() > 0 {
        lemma_latch_stays(s, id, readings.drop_last());
        observing_only_latches(observed(s, readings.drop_last()), readings.last());
    }
}

/// A draft never inherits what was seen before it was armed: however it is armed, by a new
/// condition or by a save, its latch is not set.
pub proof fn arming_starts_the_watch_afresh(
    s: StoreView,
    id: Seq<char>,
    trigger: TriggerView,
    draft: DraftView,
    now: i64,
)
    requires
        s.wf(),
    ensures
        s.set_trigger(id, trigger, now).1 matches Ok(Some(d)) ==> !d.seen_busy && s.set_trigger(
            id,
            trigger,
            now,
        ).0.get(id) == Some(d),
        s.upsert(draft, now).1 matches Ok(Some(d)) ==> (d.state is Armed ==> !d.seen_busy)
            && s.upsert(draft, now).0.get(draft.id) == Some(d),
{
    found_under_its_id(s, id);
    match s.get(id) {
        Some(e) => {
            put_is_read_back(s, e.rearmed(trigger, now));
        },
        None => {},
    }
    put_is_read_back(s, draft.first_saved(now));
    match s.get(draft.id) {
        Some(e) => {
            put_is_read_back(s, draft.saved_over(e, now));
        },
        None => {},
    }
}

/// Only armed drafts go out by themselves: one that is idle, being sent, sent or failed is in
/// no queue.
pub proof fn only_armed_drafts_go(s: StoreView, r: ReadingsView, d: DraftView)
    requires
        s.observe(r).releasable(r).contains(d),
    ensures
        d.state is Armed,
        !(d.trigger is Manual),
{
    the_queue_is_what_may_go(s.observe(r), r);
}

/// A dispatcher that could read nothing of the node sends nothing but what waits for a time.
pub proof fn nothing_read_sends_nothing(s: StoreView, r: ReadingsView, d: DraftView)
    requires
        r.running is None,
        r.usage.len() == 0,
        s.observe(r).releasable(r).contains(d),
    ensures
        d.trigger is At,
{
    the_queue_is_what_may_go(s.observe(r), r);
    if !(d.trigger is At) {
        an_unknown_reading_holds_the_draft(d.trigger, r, d.seen_busy);
    }
}

} // verus!
