//! What holds of sending: what a tick takes, what it posts, and what the outcome leaves.

use vstd::prelude::*;

use crate::dispatch::{
    ascending, concluded, follows, follows_at, precedes, precedes_is_transitive, release_result,
    some_armed, turn_of, watched, watches, Action, Event, NodeReport, Phase, Turn,
};
use crate::laws::changes::{found_under_its_id, observing_only_latches, put_is_read_back};
use crate::laws::fields::{
    a_reported_failure_changes_nothing_else, a_reported_send_changes_nothing_else, reads,
};
use crate::laws::lists::{
    the_history_shows_what_is_sent, the_queue_is_what_may_go, the_sidebar_shows_what_is_not_sent,
};
use crate::laws::waiting::busy;
use crate::models::{DraftView, ReadingsView, TriggerView};
use crate::percent::Percent;
use crate::store::{lemma_place, on_clock, place, StoreView};
use crate::text::{opt_view, views};

verus! {

/// A draft that is found stands among the rows.
proof fn lemma_found_stands(s: StoreView, id: Seq<char>)
    ensures
        s.get(id) matches Some(d) ==> s.rows.contains(d),
{
    if s.get(id) is Some {
        assert(s.rows[place(s.rows, id)].id == id);
    }
}

/// A draft that was sent is kept as history: it has its full text and the conversation it
/// landed in, it is not in the sidebar, it is in the history where that many rows are asked
/// for, and no dispatcher can claim it.
pub proof fn a_sent_draft_is_kept_as_history(
    s: StoreView,
    id: Seq<char>,
    conversation_id: Option<Seq<char>>,
    now: i64,
    limit: nat,
    later: i64,
)
    requires
        s.wf(),
        s.get(id) is Some,
    ensures
        ({
            let t = s.mark_sent(id, conversation_id, now).0;
            &&& t.get(id) matches Some(d) && {
                &&& s.mark_sent(id, conversation_id, now).1 == Some(d)
                &&& d.state is Sent
                &&& d.sent_at == Some(now)
                &&& d.text == s.get(id)->0.text
                &&& d.conversation_id == (match conversation_id {
                    Some(c) => Some(c),
                    None => s.get(id)->0.conversation_id,
                })
                &&& !t.open_drafts().contains(d)
                &&& t.rows.filter(|d: DraftView| d.state is Sent).len() <= limit
                    ==> t.sent_drafts(limit).contains(d)
            }
            &&& t.claim(id, later) == (t, None::<DraftView>)
        }),
{
    found_under_its_id(s, id);
    put_is_read_back(s, s.get(id)->0.sent(conversation_id, now));
    let t = s.mark_sent(id, conversation_id, now).0;
    lemma_found_stands(t, id);
    the_sidebar_shows_what_is_not_sent(t);
    the_history_shows_what_is_sent(t, limit);
}

/// A draft whose send failed is back, carrying the reason: it has its full text, it is in the
/// sidebar, and its row there shows the reason.
pub proof fn a_failed_draft_is_back_with_the_reason(
    s: StoreView,
    id: Seq<char>,
    error: Seq<char>,
    now: i64,
)
    requires
        s.wf(),
        s.get(id) is Some,
    ensures
        ({
            let t = s.mark_failed(id, error, now).0;
            t.get(id) matches Some(d) && {
                &&& s.mark_failed(id, error, now).1 == Some(d)
                &&& d.state is Failed
                &&& d.error == Some(error)
                &&& d.text == s.get(id)->0.text
                &&& d.claimed_at is None
                &&& d.row().waiting_for == error
                &&& t.open_drafts().contains(d)
            }
        }),
{
    found_under_its_id(s, id);
    put_is_read_back(s, s.get(id)->0.failed(error, now));
    let t = s.mark_failed(id, error, now).0;
    lemma_found_stands(t, id);
    the_sidebar_shows_what_is_not_sent(t);
}

/// The outcome of a send is never lost: whatever Core answers, the draft is sent or it has
/// failed, and it keeps its text.
pub proof fn every_send_is_concluded(
    s: StoreView,
    id: Seq<char>,
    answer: Result<Option<String>, String>,
    now: i64,
)
    requires
        s.wf(),
        s.get(id) is Some,
    ensures
        concluded(s, id, answer, now).get(id) matches Some(d) && {
            &&& d.text == s.get(id)->0.text
            &&& answer is Ok ==> d.state is Sent
            &&& answer matches Err(e) ==> d.state is Failed && d.error == Some(e@)
        },
{
    match answer {
        Ok(conversation_id) => {
            a_sent_draft_is_kept_as_history(s, id, opt_view(conversation_id), now, 0, now);
        },
        Err(e) => {
            a_failed_draft_is_back_with_the_reason(s, id, e@, now);
        },
    }
}

/// A release takes a draft exactly where one may go. The one it takes was armed, its condition
/// held, none that may go is older, and it is claimed: it is found being sent, with the text
/// it had. No other draft changes but for its latch, and none is lost.
pub proof fn a_release_claims_the_oldest(s: StoreView, r: ReadingsView, now: i64)
    requires
        s.wf(),
    ensures
        ({
            let seen = s.observe(r);
            let (t, taken) = release_result(s, r, now);
            &&& t.wf()
            &&& taken is None <==> seen.releasable(r).len() == 0
            &&& taken is None ==> t == seen
            &&& taken matches Some(d) ==> {
                let e = seen.releasable(r).first();
                &&& seen.get(e.id) == Some(e)
                &&& e.state is Armed
                &&& e.trigger.satisfied(r, e.seen_busy)
                &&& forall|o: DraftView| #[trigger]
                    seen.releasable(r).contains(o) ==> e.created_at <= o.created_at
                &&& d == e.claimed(now)
                &&& t.get(e.id) == Some(d)
                &&& t.rows.len() == s.rows.len()
                &&& forall|id: Seq<char>| id != e.id ==> #[trigger] t.get(id) == seen.get(id)
            }
        }),
{
    observing_only_latches(s, r);
    let seen = s.observe(r);
    let queue = seen.releasable(r);
    the_queue_is_what_may_go(seen, r);
    if queue.len() > 0 {
        let e = queue.first();
        assert(queue.contains(e));
        let i = choose|i: int| 0 <= i < seen.rows.len() && seen.rows[i] == e;
        lemma_place(seen.rows, e.id, i);
        assert(seen.get(e.id) == Some(e));
        put_is_read_back(seen, e.claimed(now));
        assert forall|o: DraftView| #[trigger] queue.contains(o) implies e.created_at
            <= o.created_at by {
            let j = choose|j: int| 0 <= j < queue.len() && queue[j] == o;
            if j > 0 {
                assert(queue[0].created_at <= queue[j].created_at);
            }
        }
    }
}

/// Core was not reached, or refused to say how the node is: nothing is claimed, nothing is
/// posted, and the outbox is as it was.
pub proof fn an_unread_node_sends_nothing(
    s: StoreView,
    error: String,
    after: StoreView,
    next: Phase,
    action: Action,
)
    requires
        follows(s, Phase::Reading, Event::Report(Err(error)), after, next, action),
    ensures
        after == s,
        next is Idle,
        action matches Action::Fail { error: e } && e@ == error@,
{
}

/// A message is posted only for a draft that was just claimed: the outbox has it as being
/// sent, and what is posted is its text, for its agent, into its conversation, with its model.
pub proof fn a_draft_is_claimed_before_it_is_posted(
    s: StoreView,
    phase: Phase,
    event: Event,
    after: StoreView,
    next: Phase,
    turn: Turn,
)
    requires
        s.wf(),
        follows(s, phase, event, after, next, Action::Post { turn }),
    ensures
        next matches Phase::Sending { id } && after.get(id@) matches Some(d) && {
            &&& d.state is Sending
            &&& d.claimed_at is Some
            &&& turn_of(turn, d)
            &&& s.get(id@) matches Some(e) && e.state is Armed && e.text == d.text
        },
{
    match (phase, event) {
        (Phase::Reading, Event::Report(Ok(report))) => {
            let action = Action::Post { turn };
            let (at, now) = choose|at: i64, now: i64|
                on_clock(at) && on_clock(now) && #[trigger] follows_at(
                    s,
                    phase,
                    event,
                    at,
                    now,
                    after,
                    next,
                    action,
                );
            let r = report.readings(at);
            a_release_claims_the_oldest(s, r, now);
            let e = s.observe(r).releasable(r).first();
            assert(release_result(s, r, now).1 is Some);
            observing_only_latches(s, r);
            assert(s.observe(r).get(e.id) == Some(e));
        },
        _ => {},
    }
}

/// What is posted is what the draft asks for, field by field: its text, for its agent, into its
/// conversation, with its model. The draft was armed, and is found claimed at that instant with
/// everything else as it was.
pub proof fn a_posted_turn_is_what_the_draft_asks_for(
    s: StoreView,
    phase: Phase,
    event: Event,
    at: i64,
    now: i64,
    after: StoreView,
    next: Phase,
    turn: Turn,
)
    requires
        s.wf(),
        follows_at(s, phase, event, at, now, after, next, Action::Post { turn }),
    ensures
        phase is Reading,
        next matches Phase::Sending { id } && s.get(id@) is Some && after.get(id@) is Some && {
            let e = s.get(id@)->0;
            let d = after.get(id@)->0;
            &&& turn.text@ == e.text
            &&& reads(turn.agent_id, e.agent_id)
            &&& reads(turn.conversation_id, e.conversation_id)
            &&& reads(turn.model, e.model)
            &&& e.state is Armed
            &&& d.state is Sending
            &&& d.claimed_at == Some(now)
            &&& d.text == e.text
            &&& d.conversation_id == e.conversation_id
            &&& d.agent_id == e.agent_id
            &&& d.model == e.model
            &&& d.trigger == e.trigger
            &&& d.created_at == e.created_at
        },
{
    match (phase, event) {
        (Phase::Reading, Event::Report(Ok(report))) => {
            let r = report.readings(at);
            a_release_claims_the_oldest(s, r, now);
            let e = s.observe(r).releasable(r).first();
            assert(release_result(s, r, now).1 is Some);
            observing_only_latches(s, r);
            assert(s.observe(r).get(e.id) == Some(e));
            assert(s.get(e.id) is Some);
        },
        _ => {},
    }
}

/// The draft may go on these readings: it is armed and its condition holds, where work that is
/// seen now counts as seen.
pub open spec fn may_go(d: DraftView, r: ReadingsView) -> bool {
    d.state is Armed && d.trigger.satisfied(r, d.seen_busy || busy(r))
}

/// A tick on what Core reports posts exactly where some draft may go, and then the one written
/// first. Every other draft is as the reading leaves it.
pub proof fn a_tick_takes_the_oldest_that_may_go(
    s: StoreView,
    report: NodeReport,
    at: i64,
    now: i64,
    after: StoreView,
    next: Phase,
    action: Action,
)
    requires
        s.wf(),
        follows_at(
            s,
            Phase::Reading,
            Event::Report(Ok(report)),
            at,
            now,
            after,
            next,
            action,
        ),
    ensures
        (exists|i: int| 0 <= i < s.rows.len() && may_go(#[trigger] s.rows[i], report.readings(at)))
            <==> action is Post,
        !(action is Post) ==> action is Rest && next is Idle && after == s.observe(
            report.readings(at),
        ),
        action is Post ==> (next matches Phase::Sending { id } && s.get(id@) is Some && {
            &&& may_go(s.get(id@)->0, report.readings(at))
            &&& forall|i: int|
                0 <= i < s.rows.len() && may_go(#[trigger] s.rows[i], report.readings(at))
                    ==> s.get(id@)->0.created_at <= s.rows[i].created_at
            &&& forall|other: Seq<char>|
                other != id@ ==> #[trigger] after.get(other) == s.observe(
                    report.readings(at),
                ).get(other)
        }),
{
    let r = report.readings(at);
    let seen = s.observe(r);
    a_release_claims_the_oldest(s, r, now);
    observing_only_latches(s, r);
    the_queue_is_what_may_go(seen, r);
    let queue = seen.releasable(r);
    assert forall|i: int| 0 <= i < s.rows.len() && may_go(#[trigger] s.rows[i], r) implies
        queue.contains(seen.rows[i]) && seen.rows[i].created_at == s.rows[i].created_at by {
        assert(seen.rows.contains(seen.rows[i]));
    }
    if queue.len() > 0 {
        let e = queue.first();
        assert(queue.contains(e));
        let i = choose|i: int| 0 <= i < seen.rows.len() && seen.rows[i] == e;
        assert(s.rows[i].id == e.id);
        lemma_place(s.rows, e.id, i);
        assert(may_go(s.rows[i], r));
    }
}

/// The answer to a post is recorded on the draft that was posted, at that instant, and on no
/// other; the tick is then over.
pub proof fn an_answer_is_recorded_on_its_draft(
    s: StoreView,
    id: String,
    answer: Result<Option<String>, String>,
    at: i64,
    now: i64,
    after: StoreView,
    next: Phase,
    action: Action,
)
    requires
        s.wf(),
        follows_at(s, Phase::Sending { id }, Event::Posted(answer), at, now, after, next, action),
    ensures
        next is Idle,
        action is Rest,
        s.get(id@) is None ==> after == s,
        s.get(id@) matches Some(e) ==> after.get(id@) is Some && {
            let d = after.get(id@)->0;
            &&& d.updated_at == now
            &&& d.text == e.text
            &&& d.agent_id == e.agent_id
            &&& d.model == e.model
            &&& d.created_at == e.created_at
            &&& d.claimed_at is None
            &&& answer matches Ok(c) ==> {
                &&& d.state is Sent
                &&& d.sent_at == Some(now)
                &&& d.error is None
                &&& c matches Some(c) ==> d.conversation_id == Some(c@)
                &&& c is None ==> d.conversation_id == e.conversation_id
            }
            &&& answer matches Err(why) ==> {
                &&& d.state is Failed
                &&& d.error == Some(why@)
                &&& d.sent_at == e.sent_at
                &&& d.conversation_id == e.conversation_id
            }
        },
        forall|other: Seq<char>| other != id@ ==> #[trigger] after.get(other) == s.get(other),
{
    found_under_its_id(s, id@);
    match answer {
        Ok(c) => {
            a_reported_send_changes_nothing_else(s, id@, opt_view(c), now);
            if s.get(id@) is Some {
                put_is_read_back(s, s.get(id@)->0.sent(opt_view(c), now));
            }
        },
        Err(why) => {
            a_reported_failure_changes_nothing_else(s, id@, why@, now);
            if s.get(id@) is Some {
                put_is_read_back(s, s.get(id@)->0.failed(why@, now));
            }
        },
    }
}

/// Some draft is armed for that agent's usage.
pub open spec fn some_wait_for(s: StoreView, agent_id: Seq<char>) -> bool {
    exists|i: int|
        0 <= i < s.rows.len() && (#[trigger] s.rows[i]).state is Armed && (s.rows[i].trigger matches
            TriggerView::UsageReset { agent_id: a, .. } && a == agent_id)
}

/// A wake-up asks Core exactly where some draft is armed, and about exactly those agents whose
/// usage an armed draft waits for, each once and in the order of their names. It changes
/// nothing.
pub proof fn a_wake_asks_exactly_what_is_needed(
    s: StoreView,
    at: i64,
    now: i64,
    after: StoreView,
    next: Phase,
    action: Action,
)
    requires
        follows_at(s, Phase::Idle, Event::Wake, at, now, after, next, action),
    ensures
        after == s,
        (exists|i: int| 0 <= i < s.rows.len() && (#[trigger] s.rows[i]).state is Armed)
            <==> action is Ask,
        action is Ask <==> next is Reading,
        !(action is Ask) ==> action is Rest && next is Idle,
        action matches Action::Ask { agent_ids } ==> {
            &&& forall|id: Seq<char>|
                (exists|k: int| 0 <= k < agent_ids@.len() && #[trigger] agent_ids@[k]@ == id)
                    <==> #[trigger] some_wait_for(s, id)
            &&& forall|j: int, k: int|
                0 <= j < k < agent_ids@.len() ==> precedes(
                    (#[trigger] agent_ids@[j])@,
                    (#[trigger] agent_ids@[k])@,
                )
        },
{
    the_sidebar_shows_what_is_not_sent(s);
    let open = s.open_drafts();
    if exists|i: int| 0 <= i < s.rows.len() && (#[trigger] s.rows[i]).state is Armed {
        let i = choose|i: int| 0 <= i < s.rows.len() && (#[trigger] s.rows[i]).state is Armed;
        assert(s.rows.contains(s.rows[i]));
        assert(open.contains(s.rows[i]));
        let k = choose|k: int| 0 <= k < open.len() && open[k] == s.rows[i];
        assert(open[k].state is Armed);
        assert(some_armed(open));
    }
    if some_armed(open) {
        let k = choose|k: int| 0 <= k < open.len() && (#[trigger] open[k]).state is Armed;
        assert(open.contains(open[k]));
        let i = choose|i: int| 0 <= i < s.rows.len() && s.rows[i] == open[k];
        assert(s.rows[i].state is Armed);
    }
    if let Action::Ask { agent_ids } = action {
        let ids = views(agent_ids@);
        assert forall|id: Seq<char>|
            (exists|k: int| 0 <= k < agent_ids@.len() && #[trigger] agent_ids@[k]@ == id)
                <==> #[trigger] some_wait_for(s, id) by {
            if exists|k: int| 0 <= k < agent_ids@.len() && #[trigger] agent_ids@[k]@ == id {
                let k = choose|k: int| 0 <= k < agent_ids@.len() && #[trigger] agent_ids@[k]@ == id;
                assert(ids[k] == id);
                assert(ids.contains(id));
                let j = choose|j: int| 0 <= j < open.len() && watches(#[trigger] open[j], id);
                assert(open.contains(open[j]));
                let i = choose|i: int| 0 <= i < s.rows.len() && s.rows[i] == open[j];
                assert(s.rows[i].state is Armed);
            }
            if some_wait_for(s, id) {
                let i = choose|i: int|
                    0 <= i < s.rows.len() && (#[trigger] s.rows[i]).state is Armed && (
                    s.rows[i].trigger matches TriggerView::UsageReset { agent_id: a, .. } && a
                        == id);
                assert(s.rows.contains(s.rows[i]));
                assert(open.contains(s.rows[i]));
                let j = choose|j: int| 0 <= j < open.len() && open[j] == s.rows[i];
                assert(watches(open[j], id));
                assert(ids.contains(id));
                let k = choose|k: int| 0 <= k < ids.len() && ids[k] == id;
                assert(agent_ids@[k]@ == id);
            }
        }
        assert forall|j: int, k: int| 0 <= j < k < agent_ids@.len() implies precedes(
            (#[trigger] agent_ids@[j])@,
            (#[trigger] agent_ids@[k])@,
        ) by {
            assert(precedes(ids[j], ids[k]));
        }
    }
}

/// Names are ordered as a dictionary orders them: a beginning comes before what it begins, and
/// otherwise the first character that differs decides.
pub proof fn names_are_ordered_as_in_a_dictionary(
    common: Seq<char>,
    a: char,
    b: char,
    rest: Seq<char>,
    other: Seq<char>,
)
    ensures
        precedes(common, common.push(a) + rest),
        !precedes(common.push(a) + rest, common),
        a != b ==> (precedes(common.push(a) + rest, common.push(b) + other) <==> a < b),
    decreases common.len(),
{
    let x = common.push(a) + rest;
    let y = common.push(b) + other;
    if common.len() == 0 {
        assert(x.first() == a);
        assert(y.first() == b);
    } else {
        let c = common.drop_first();
        names_are_ordered_as_in_a_dictionary(c, a, b, rest, other);
        assert(x.drop_first() =~= c.push(a) + rest);
        assert(y.drop_first() =~= c.push(b) + other);
        assert(x.first() == common.first());
        assert(y.first() == common.first());
    }
}

/// What Core reports is read as it is: the instant, and of each agent that is named with a
/// percentage that percentage, in order; a row that lacks either says nothing.
pub proof fn a_report_is_read_row_by_row(
    report: NodeReport,
    longer: NodeReport,
    row: (Option<String>, Option<Percent>),
    now: i64,
)
    requires
        longer.usage@ == report.usage@.push(row),
    ensures
        report.readings(now).now_ms == now,
        report.running is None <==> report.readings(now).running is None,
        report.usage@.len() == 0 ==> report.readings(now).usage.len() == 0,
        (row.0 is Some && row.1 is Some) ==> longer.readings(now).usage == report.readings(
            now,
        ).usage.push((row.0->0@, row.1->0)),
        (row.0 is None || row.1 is None) ==> longer.readings(now).usage == report.readings(
            now,
        ).usage,
{
    assert(longer.usage@.drop_last() =~= report.usage@);
}

/// One step of a dispatcher that was taken.
pub struct Taken {
    pub before: StoreView,
    pub phase: Phase,
    pub event: Event,
    pub after: StoreView,
    pub next: Phase,
    pub action: Action,
}

/// The dispatcher took these steps, one after the other, starting between two ticks. What
/// else happens to the outbox in the meantime is left open.
pub open spec fn ran(steps: Seq<Taken>) -> bool {
    &&& steps.len() > 0 ==> steps[0].phase is Idle
    &&& forall|i: int|
        0 <= i < steps.len() ==> follows(
            (#[trigger] steps[i]).before,
            steps[i].phase,
            steps[i].event,
            steps[i].after,
            steps[i].next,
            steps[i].action,
        )
    &&& forall|i: int, j: int|
        0 <= i && j == i + 1 && j < steps.len() ==> (#[trigger] steps[i]).next == (
        #[trigger] steps[j]).phase
}

/// How many ticks were begun.
pub open spec fn wakes(steps: Seq<Taken>) -> nat
    decreases steps.len(),
{
    if steps.len() == 0 {
        0
    } else {
        wakes(steps.drop_last()) + (if steps.last().event is Wake {
            1nat
        } else {
            0
        })
    }
}

/// How many messages were posted.
pub open spec fn posts(steps: Seq<Taken>) -> nat
    decreases steps.len(),
{
    if steps.len() == 0 {
        0
    } else {
        posts(steps.drop_last()) + (if steps.last().action is Post {
            1nat
        } else {
            0
        })
    }
}

/// A tick posts at most one message: however long the dispatcher runs, it has posted no more
/// messages than it has begun ticks.
pub proof fn a_tick_posts_at_most_one(steps: Seq<Taken>)
    requires
        ran(steps),
    ensures
        posts(steps) <= wakes(steps),
        steps.len() > 0 && steps.last().next is Reading ==> posts(steps) < wakes(steps),
    decreases steps.len(),
{
    if steps.len() > 0 {
        let before = steps.drop_last();
        let n = steps.len() as int;
        assert forall|i: int| 0 <= i < before.len() implies follows(
            (#[trigger] before[i]).before,
            before[i].phase,
            before[i].event,
            before[i].after,
            before[i].next,
            before[i].action,
        ) by {
            assert(before[i] == steps[i]);
        }
        assert forall|i: int, j: int| 0 <= i && j == i + 1 && j < before.len() implies (
        #[trigger] before[i]).next == (#[trigger] before[j]).phase by {
            assert(before[i] == steps[i]);
            assert(before[j] == steps[j]);
        }
        if before.len() > 0 {
            assert(before[0] == steps[0]);
            assert(before.last() == steps[n - 2]);
            assert(steps[n - 2].next == steps[n - 1].phase);
        }
        a_tick_posts_at_most_one(before);
        let last = steps[n - 1];
        assert(last == steps.last());
        match (last.phase, last.event) {
            (Phase::Reading, Event::Report(report)) => {
                assert(!(last.next is Reading));
            },
            _ => {},
        }
    }
}

/// A text does not come before itself.
proof fn lemma_precedes_irreflexive(a: Seq<char>)
    ensures
        !precedes(a, a),
    decreases a.len(),
{
    if a.len() > 0 {
        lemma_precedes_irreflexive(a.drop_first());
    }
}

/// Only an armed draft that waits for an agent's usage costs a reading of it: where there is
/// none, no agent is asked about.
pub proof fn no_usage_draft_asks_about_no_agent(drafts: Seq<DraftView>, ids: Seq<Seq<char>>)
    requires
        watched(drafts, ids),
        forall|i: int, id: Seq<char>| 0 <= i < drafts.len() ==> !(#[trigger] watches(drafts[i], id)),
    ensures
        ids.len() == 0,
{
    if ids.len() > 0 {
        assert(ids.contains(ids[0]));
    }
}

/// No armed draft is overlooked: where one is in the outbox, a wake-up asks Core for readings,
/// and about every agent whose usage an armed draft waits for.
pub proof fn an_armed_draft_makes_a_wake_ask(
    s: StoreView,
    d: DraftView,
    after: StoreView,
    next: Phase,
    action: Action,
)
    requires
        s.rows.contains(d),
        d.state is Armed,
        follows(s, Phase::Idle, Event::Wake, after, next, action),
    ensures
        next is Reading,
        action matches Action::Ask { agent_ids } && forall|id: Seq<char>|
            watches(d, id) ==> #[trigger] views(agent_ids@).contains(id),
        after == s,
{
    the_sidebar_shows_what_is_not_sent(s);
    let open = s.open_drafts();
    assert(open.contains(d));
    let i = choose|i: int| 0 <= i < open.len() && open[i] == d;
    assert(open[i].state is Armed);
    assert(some_armed(open));
    assert forall|id: Seq<char>| watches(d, id) implies #[trigger] views(
        action->agent_ids@,
    ).contains(id) by {
        assert(watches(open[i], id));
    }
}

/// A run count that Core reports is judged as it is, however large: a draft that waits for
/// fewer than some runs goes only where fewer are active, and a node with any runs is busy.
pub proof fn a_reported_run_count_is_judged_as_it_is(
    report: NodeReport,
    now: i64,
    below: u32,
    seen_busy: bool,
)
    ensures
        (TriggerView::Concurrency { below }).satisfied(report.readings(now), seen_busy) <==> (
        report.running matches Some(n) && n < below),
        TriggerView::AllDone.satisfied(report.readings(now), seen_busy) <==> seen_busy
            && report.running == Some(0u64),
        busy(report.readings(now)) <==> (report.running matches Some(n) && n > 0),
{
}

/// Which agents are asked about, and in which order, is fixed by the drafts.
pub proof fn the_asked_agents_are_fixed(
    drafts: Seq<DraftView>,
    a: Seq<Seq<char>>,
    b: Seq<Seq<char>>,
)
    requires
        watched(drafts, a),
        watched(drafts, b),
    ensures
        a == b,
{
    assert forall|x: Seq<char>| #[trigger] a.contains(x) <==> b.contains(x) by {}
    lemma_ascending_is_fixed(a, b);
}

/// Two ascending rows with the same members are the same.
proof fn lemma_ascending_is_fixed(a: Seq<Seq<char>>, b: Seq<Seq<char>>)
    requires
        ascending(a),
        ascending(b),
        forall|x: Seq<char>| #[trigger] a.contains(x) <==> b.contains(x),
    ensures
        a == b,
    decreases a.len(),
{
    if a.len() == 0 {
        if b.len() > 0 {
            assert(b.contains(b[0]));
            assert(a.contains(b[0]));
        }
    } else {
        let x = a.last();
        assert(a.contains(x));
        assert(b.contains(x));
        let y = b.last();
        assert(b.contains(y));
        assert(a.contains(y));
        let i = choose|i: int| 0 <= i < b.len() && b[i] == x;
        let j = choose|j: int| 0 <= j < a.len() && a[j] == y;
        if x != y {
            assert(precedes(b[i], b[b.len() - 1]));
            assert(precedes(a[j], a[a.len() - 1]));
            precedes_is_transitive(x, y, x);
            lemma_precedes_irreflexive(x);
        }
        let a0 = a.drop_last();
        let b0 = b.drop_last();
        assert forall|p: int, q: int| 0 <= p < q < a0.len() implies precedes(
            #[trigger] a0[p],
            #[trigger] a0[q],
        ) by {
            assert(precedes(a[p], a[q]));
        }
        assert forall|p: int, q: int| 0 <= p < q < b0.len() implies precedes(
            #[trigger] b0[p],
            #[trigger] b0[q],
        ) by {
            assert(precedes(b[p], b[q]));
        }
        lemma_ascending_front(a);
        lemma_ascending_front(b);
        assert forall|z: Seq<char>| #[trigger] a0.contains(z) <==> b0.contains(z) by {
            assert(a0.contains(z) <==> a.contains(z) && z != x);
            assert(b0.contains(z) <==> b.contains(z) && z != x);
        }
        lemma_ascending_is_fixed(a0, b0);
        assert(a =~= a0.push(x));
        assert(b =~= b0.push(x));
    }
}

/// All but the last of an ascending row.
proof fn lemma_ascending_front(a: Seq<Seq<char>>)
    requires
        ascending(a),
        a.len() > 0,
    ensures
        forall|z: Seq<char>| #[trigger]
            a.drop_last().contains(z) <==> a.contains(z) && z != a.last(),
{
    let front = a.drop_last();
    assert forall|z: Seq<char>| #[trigger] front.contains(z) <==> a.contains(z) && z
        != a.last() by {
        if front.contains(z) {
            let i = choose|i: int| 0 <= i < front.len() && front[i] == z;
            assert(a[i] == z);
            assert(precedes(a[i], a[a.len() - 1]));
            lemma_precedes_irreflexive(z);
        }
        if a.contains(z) && z != a.last() {
            let i = choose|i: int| 0 <= i < a.len() && a[i] == z;
            assert(front[i] == z);
        }
    }
}

} // verus!
