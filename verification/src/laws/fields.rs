//! What each operation does to each field of a draft, and what it leaves alone.

use vstd::prelude::*;

use crate::api::{save_result, SaveBody};
use crate::laws::changes::{found_under_its_id, put_is_read_back};
use crate::models::{
    Draft, DraftRow, DraftView, Readings, ReadingsView, Source, State, Trigger, TriggerView,
};
use crate::store::{describes, holds, lemma_place, place, DraftRecord, StoreView};
use crate::text::is_space;

verus! {

/// The text that may be missing reads as `v`.
pub open spec fn reads(o: Option<String>, v: Option<Seq<char>>) -> bool {
    match o {
        Some(s) => v is Some && v->0 == s@,
        None => v is None,
    }
}

/// There is something in the text besides white space.
pub open spec fn has_text(s: Seq<char>) -> bool {
    exists|i: int| 0 <= i < s.len() && !is_space(#[trigger] s[i])
}

/// What is meant by a draft is all of its fields.
pub proof fn a_draft_is_seen_whole(d: Draft)
    ensures
        d@.id == d.id@,
        d@.text == d.text@,
        reads(d.conversation_id, d@.conversation_id),
        reads(d.agent_id, d@.agent_id),
        reads(d.model, d@.model),
        reads(d.folder_path, d@.folder_path),
        d@.source == d.source,
        d@.state == d.state,
        d@.trigger == d.trigger@,
        reads(d.error, d@.error),
        d@.seen_busy == d.seen_busy,
        d@.created_at == d.created_at,
        d@.updated_at == d.updated_at,
        d@.claimed_at == d.claimed_at,
        d@.sent_at == d.sent_at,
{
}

/// What is meant by a row is all of its fields.
pub proof fn a_row_is_seen_whole(r: DraftRow)
    ensures
        r@.draft == r.draft@,
        r@.preview == r.preview@,
        r@.state_label == r.state_label@,
        r@.waiting_for == r.waiting_for@,
{
}

/// What is meant by a condition is its kind and all of its numbers and names.
pub proof fn a_condition_is_seen_whole(t: Trigger)
    ensures
        t is Manual <==> t@ is Manual,
        t is AllDone <==> t@ is AllDone,
        t matches Trigger::Concurrency { below } ==> t@ == (TriggerView::Concurrency { below }),
        t matches Trigger::UsageReset { agent_id, below_percent } ==> t@ == (
        TriggerView::UsageReset { agent_id: agent_id@, below_percent }),
        t matches Trigger::At { epoch_ms } ==> t@ == (TriggerView::At { epoch_ms }),
{
}

/// What is meant by readings is all of them, in their order.
pub proof fn readings_are_seen_whole(r: Readings)
    ensures
        r@.running == r.running,
        r@.now_ms == r.now_ms,
        r@.usage.len() == r.usage@.len(),
        forall|i: int|
            0 <= i < r.usage@.len() ==> (#[trigger] r@.usage[i]).0 == r.usage@[i].0@ && r@.usage[i].1
                == r.usage@[i].1,
{
}

/// Every draft in the outbox is found under its id.
pub proof fn every_draft_is_found(s: StoreView, i: int)
    requires
        s.wf(),
        0 <= i < s.rows.len(),
    ensures
        s.get(s.rows[i].id) == Some(s.rows[i]),
{
    lemma_place(s.rows, s.rows[i].id, i);
}

/// What is not in the outbox is not found.
pub proof fn what_is_not_there_is_not_found(s: StoreView, id: Seq<char>)
    requires
        forall|i: int| 0 <= i < s.rows.len() ==> (#[trigger] s.rows[i]).id != id,
    ensures
        s.get(id) is None,
{
}

/// The condition is one that can be written down.
pub open spec fn writable(t: TriggerView) -> bool {
    t matches TriggerView::UsageReset { below_percent, .. } ==> below_percent.is_finite()
}

/// Giving a draft a condition changes its condition, its state, its error, its latch and when
/// it was touched, and nothing else: it keeps its place in the queue.
pub proof fn a_condition_changes_nothing_else(
    s: StoreView,
    id: Seq<char>,
    trigger: TriggerView,
    now: i64,
)
    requires
        s.wf(),
        s.get(id) matches Some(e) && !(e.state is Sending),
    ensures
        ({
            let e = s.get(id)->0;
            let (t, r) = s.set_trigger(id, trigger, now);
            &&& r matches Ok(answered) && answered == t.get(id)
            &&& t.get(id) matches Some(d) && {
                &&& d.id == e.id
                &&& d.text == e.text
                &&& d.conversation_id == e.conversation_id
                &&& d.agent_id == e.agent_id
                &&& d.model == e.model
                &&& d.folder_path == e.folder_path
                &&& d.source == e.source
                &&& d.created_at == e.created_at
                &&& d.claimed_at == e.claimed_at
                &&& d.sent_at == e.sent_at
                &&& d.updated_at == now
                &&& d.error is None
                &&& !d.seen_busy
                &&& trigger is Manual ==> d.state is Draft
                &&& !(trigger is Manual) ==> d.state is Armed
                &&& writable(trigger) ==> d.trigger == trigger
                &&& !writable(trigger) ==> d.trigger is Manual
            }
            &&& t.rows.len() == s.rows.len()
            &&& t.settings == s.settings
        }),
{
    found_under_its_id(s, id);
    put_is_read_back(s, s.get(id)->0.rearmed(trigger, now));
}

/// A draft that is not there, or is being sent, is given no condition.
pub proof fn a_condition_is_refused_where_it_cannot_be_given(
    s: StoreView,
    id: Seq<char>,
    trigger: TriggerView,
    now: i64,
)
    requires
        s.get(id) matches Some(e) ==> e.state is Sending,
    ensures
        s.set_trigger(id, trigger, now).0 == s,
        s.get(id) is None ==> (s.set_trigger(id, trigger, now).1 matches Ok(d) && d is None),
        s.get(id) is Some ==> (s.set_trigger(id, trigger, now).1 matches Err(i) && i == id),
{
}

/// Two drafts that are given conditions keep the order in which they were written, whenever
/// and in whichever order the conditions are given.
pub proof fn arming_keeps_the_queue_order(
    s: StoreView,
    a: Seq<char>,
    b: Seq<char>,
    ta: TriggerView,
    tb: TriggerView,
    first: i64,
    second: i64,
)
    requires
        s.wf(),
        a != b,
        s.get(a) matches Some(d) && !(d.state is Sending),
        s.get(b) matches Some(d) && !(d.state is Sending),
    ensures
        ({
            let t = s.set_trigger(b, tb, first).0.set_trigger(a, ta, second).0;
            &&& t.get(a) is Some
            &&& t.get(b) is Some
            &&& t.get(a)->0.created_at <= t.get(b)->0.created_at <==> s.get(a)->0.created_at
                <= s.get(b)->0.created_at
        }),
{
    found_under_its_id(s, a);
    found_under_its_id(s, b);
    put_is_read_back(s, s.get(b)->0.rearmed(tb, first));
    let m = s.set_trigger(b, tb, first).0;
    assert(m.get(a) == s.get(a));
    found_under_its_id(m, a);
    put_is_read_back(m, m.get(a)->0.rearmed(ta, second));
    a_condition_changes_nothing_else(s, b, tb, first);
    a_condition_changes_nothing_else(m, a, ta, second);
}

/// Saving a draft that is not there keeps every field that was given, stamps it, and starts its
/// watch afresh; it goes behind all the others.
pub proof fn a_new_draft_is_kept_whole(s: StoreView, draft: DraftView, now: i64)
    requires
        s.wf(),
        s.get(draft.id) is None,
        has_text(draft.text),
    ensures
        ({
            let (t, r) = s.upsert(draft, now);
            &&& r matches Ok(answered) && answered == t.get(draft.id)
            &&& t.get(draft.id) matches Some(d) && {
                &&& d.id == draft.id
                &&& d.text == draft.text
                &&& d.conversation_id == draft.conversation_id
                &&& d.agent_id == draft.agent_id
                &&& d.model == draft.model
                &&& d.folder_path == draft.folder_path
                &&& d.source == draft.source
                &&& d.state == draft.state
                &&& writable(draft.trigger) ==> d.trigger == draft.trigger
                &&& !writable(draft.trigger) ==> d.trigger is Manual
                &&& d.error == draft.error
                &&& !d.seen_busy
                &&& d.created_at == now
                &&& d.updated_at == now
                &&& d.claimed_at == draft.claimed_at
                &&& d.sent_at == draft.sent_at
                &&& t.rows[t.rows.len() - 1] == d
            }
            &&& t.rows.len() == s.rows.len() + 1
            &&& forall|i: int| 0 <= i < s.rows.len() ==> #[trigger] t.rows[i] == s.rows[i]
            &&& t.settings == s.settings
        }),
{
    let i = choose|i: int| 0 <= i < draft.text.len() && !is_space(#[trigger] draft.text[i]);
    assert(!is_space(draft.text[i]));
    put_is_read_back(s, draft.first_saved(now));
}

/// Saving over a draft takes the text, the addressees and the condition that are given, and
/// keeps where the draft came from, when it was written, and its claim and send instants. A
/// failure goes; a latch stays unless the save arms the draft. Every draft stands where it
/// stood.
pub proof fn an_edit_takes_what_is_given(s: StoreView, draft: DraftView, now: i64)
    requires
        s.wf(),
        s.get(draft.id) matches Some(e) && !(e.state is Sending),
        has_text(draft.text),
    ensures
        ({
            let e = s.get(draft.id)->0;
            let (t, r) = s.upsert(draft, now);
            &&& r matches Ok(answered) && answered == t.get(draft.id)
            &&& t.get(draft.id) matches Some(d) && {
                &&& d.id == draft.id
                &&& d.text == draft.text
                &&& d.conversation_id == draft.conversation_id
                &&& d.agent_id == draft.agent_id
                &&& d.model == draft.model
                &&& d.folder_path == draft.folder_path
                &&& d.source == e.source
                &&& e.state is Failed && !(draft.state is Armed) ==> d.state is Draft
                &&& !(e.state is Failed) || draft.state is Armed ==> d.state == draft.state
                &&& writable(draft.trigger) ==> d.trigger == draft.trigger
                &&& !writable(draft.trigger) ==> d.trigger is Manual
                &&& e.state is Failed ==> d.error is None
                &&& !(e.state is Failed) ==> d.error == draft.error
                &&& d.state is Armed ==> !d.seen_busy
                &&& !(d.state is Armed) ==> d.seen_busy == e.seen_busy
                &&& d.created_at == e.created_at
                &&& d.updated_at == now
                &&& d.claimed_at == e.claimed_at
                &&& d.sent_at == e.sent_at
            }
            &&& t.rows.len() == s.rows.len()
            &&& forall|i: int| 0 <= i < s.rows.len() ==> (#[trigger] t.rows[i]).id == s.rows[i].id
            &&& t.settings == s.settings
        }),
{
    let i = choose|i: int| 0 <= i < draft.text.len() && !is_space(#[trigger] draft.text[i]);
    assert(!is_space(draft.text[i]));
    found_under_its_id(s, draft.id);
    let e = s.get(draft.id)->0;
    put_is_read_back(s, draft.saved_over(e, now));
    assert(s.rows[place(s.rows, draft.id)].id == draft.id);
}

/// Saving a text of nothing but white space takes the draft away, in whatever state it is, and
/// answers that there is none.
pub proof fn a_blank_save_deletes(s: StoreView, draft: DraftView, now: i64)
    requires
        s.wf(),
        !has_text(draft.text),
    ensures
        s.upsert(draft, now).1 matches Ok(d) && d is None,
        s.upsert(draft, now).0.get(draft.id) is None,
        s.get(draft.id) is Some ==> s.upsert(draft, now).0.rows.len() == s.rows.len() - 1,
        s.get(draft.id) is None ==> s.upsert(draft, now).0.rows == s.rows,
{
    assert forall|i: int| 0 <= i < draft.text.len() implies is_space(#[trigger] draft.text[i]) by {}
    crate::laws::changes::deleted_is_gone(s, draft.id);
    if holds(s.rows, draft.id) {
        assert(s.rows[place(s.rows, draft.id)].id == draft.id);
    }
}

/// A save keeps what its body says: the text, the conversation it goes into, the agent it is
/// for, the model and the folder; a new draft also keeps the source that the body names. With
/// a condition it is armed, without one it is idle.
pub proof fn a_save_keeps_what_its_body_says(s: StoreView, body: SaveBody, id: Seq<char>, now: i64)
    requires
        s.wf(),
        has_text(body.text@),
        s.get(id) matches Some(e) ==> !(e.state is Sending),
    ensures
        save_result(s, body, id, now).0.get(id) matches Some(d) && {
            &&& d.id == id
            &&& d.text == body.text@
            &&& reads(body.conversation_id, d.conversation_id)
            &&& reads(body.agent_id, d.agent_id)
            &&& reads(body.model, d.model)
            &&& reads(body.folder_path, d.folder_path)
            &&& d.error is None
            &&& d.updated_at == now
            &&& (body.trigger is None || body.trigger->0 is Manual) ==> d.state is Draft
                && d.trigger is Manual
            &&& (body.trigger is Some && !(body.trigger->0 is Manual)) ==> d.state is Armed
                && !d.seen_busy
            &&& (body.trigger matches Some(t) && writable(t@)) ==> d.trigger == body.trigger->0@
            &&& s.get(id) is None ==> {
                &&& d.created_at == now
                &&& d.claimed_at is None
                &&& d.sent_at is None
                &&& !d.seen_busy
                &&& body.source is None ==> d.source is Manual
                &&& body.source matches Some(n) ==> d.source == Source::named(n@)
            }
            &&& s.get(id) matches Some(e) ==> {
                &&& d.created_at == e.created_at
                &&& d.source == e.source
                &&& d.claimed_at == e.claimed_at
                &&& d.sent_at == e.sent_at
            }
        },
{
    let draft = body.draft(id, now);
    if s.get(id) is None {
        a_new_draft_is_kept_whole(s, draft, now);
    } else {
        an_edit_takes_what_is_given(s, draft, now);
    }
}

/// A claim is won exactly where the draft is there, in a known state, and idle, armed, or
/// claimed by someone who has had it for more than two minutes. One that is lost changes
/// nothing.
pub proof fn a_claim_is_won_exactly_where_the_draft_is_free(s: StoreView, id: Seq<char>, now: i64)
    ensures
        s.claim(id, now).1 is Some <==> {
            &&& s.get(id) is Some
            &&& !s.unknown_states.dom().contains(id)
            &&& s.get(id)->0.state is Draft || s.get(id)->0.state is Armed || (s.get(
                id,
            )->0.state is Sending && s.get(id)->0.claimed_at is Some && now - s.get(
                id,
            )->0.claimed_at->0 > 120_000)
        },
        s.claim(id, now).1 is None ==> s.claim(id, now).0 == s,
{
}

/// A claim changes the state, the claim instant and when the draft was touched, and nothing
/// else.
pub proof fn a_claim_changes_nothing_else(s: StoreView, id: Seq<char>, now: i64)
    requires
        s.wf(),
        s.claim(id, now).1 is Some,
    ensures
        ({
            let e = s.get(id)->0;
            let (t, r) = s.claim(id, now);
            &&& r == t.get(id)
            &&& t.get(id) matches Some(d) && {
                &&& d.state is Sending
                &&& d.claimed_at == Some(now)
                &&& d.updated_at == now
                &&& d.id == e.id
                &&& d.text == e.text
                &&& d.conversation_id == e.conversation_id
                &&& d.agent_id == e.agent_id
                &&& d.model == e.model
                &&& d.folder_path == e.folder_path
                &&& d.source == e.source
                &&& d.trigger == e.trigger
                &&& d.error == e.error
                &&& d.seen_busy == e.seen_busy
                &&& d.created_at == e.created_at
                &&& d.sent_at == e.sent_at
            }
            &&& t.rows.len() == s.rows.len()
            &&& t.settings == s.settings
        }),
{
    found_under_its_id(s, id);
    put_is_read_back(s, s.get(id)->0.claimed(now));
}

/// A send that is reported changes the state, the send instant and when the draft was touched,
/// clears its claim and its error, and takes the conversation where one is named; nothing else
/// changes. Where there is no such draft nothing does.
pub proof fn a_reported_send_changes_nothing_else(
    s: StoreView,
    id: Seq<char>,
    conversation_id: Option<Seq<char>>,
    now: i64,
)
    requires
        s.wf(),
    ensures
        ({
            let (t, r) = s.mark_sent(id, conversation_id, now);
            &&& r == t.get(id)
            &&& s.get(id) is None ==> t == s
            &&& s.get(id) matches Some(e) ==> t.get(id) is Some && {
                let d = t.get(id)->0;
                &&& d.state is Sent
                &&& d.sent_at == Some(now)
                &&& d.updated_at == now
                &&& d.claimed_at is None
                &&& d.error is None
                &&& conversation_id is Some ==> d.conversation_id == conversation_id
                &&& conversation_id is None ==> d.conversation_id == e.conversation_id
                &&& d.id == e.id
                &&& d.text == e.text
                &&& d.agent_id == e.agent_id
                &&& d.model == e.model
                &&& d.folder_path == e.folder_path
                &&& d.source == e.source
                &&& d.trigger == e.trigger
                &&& d.seen_busy == e.seen_busy
                &&& d.created_at == e.created_at
                &&& t.rows.len() == s.rows.len()
                &&& t.settings == s.settings
            }
        }),
{
    found_under_its_id(s, id);
    if s.get(id) is Some {
        put_is_read_back(s, s.get(id)->0.sent(conversation_id, now));
    }
}

/// A failure that is reported changes the state, the error and when the draft was touched, and
/// clears its claim; nothing else changes. Where there is no such draft nothing does.
pub proof fn a_reported_failure_changes_nothing_else(
    s: StoreView,
    id: Seq<char>,
    error: Seq<char>,
    now: i64,
)
    requires
        s.wf(),
    ensures
        ({
            let (t, r) = s.mark_failed(id, error, now);
            &&& r == t.get(id)
            &&& s.get(id) is None ==> t == s
            &&& s.get(id) matches Some(e) ==> t.get(id) is Some && {
                let d = t.get(id)->0;
                &&& d.state is Failed
                &&& d.error is Some && d.error->0 == error
                &&& d.updated_at == now
                &&& d.claimed_at is None
                &&& d.id == e.id
                &&& d.text == e.text
                &&& d.conversation_id == e.conversation_id
                &&& d.agent_id == e.agent_id
                &&& d.model == e.model
                &&& d.folder_path == e.folder_path
                &&& d.source == e.source
                &&& d.trigger == e.trigger
                &&& d.seen_busy == e.seen_busy
                &&& d.created_at == e.created_at
                &&& d.sent_at == e.sent_at
                &&& t.rows.len() == s.rows.len()
                &&& t.settings == s.settings
            }
        }),
{
    found_under_its_id(s, id);
    if s.get(id) is Some {
        put_is_read_back(s, s.get(id)->0.failed(error, now));
    }
}

/// A reading of the node sets the latch of every armed draft where work is running, and changes
/// no other field of any draft, nor their order.
pub proof fn a_reading_changes_nothing_else(s: StoreView, r: ReadingsView, i: int)
    requires
        0 <= i < s.rows.len(),
    ensures
        s.observe(r).rows.len() == s.rows.len(),
        s.observe(r).settings == s.settings,
        s.observe(r).unknown_states == s.unknown_states,
        ({
            let e = s.rows[i];
            let d = s.observe(r).rows[i];
            &&& d.id == e.id
            &&& d.text == e.text
            &&& d.conversation_id == e.conversation_id
            &&& d.agent_id == e.agent_id
            &&& d.model == e.model
            &&& d.folder_path == e.folder_path
            &&& d.source == e.source
            &&& d.state == e.state
            &&& d.trigger == e.trigger
            &&& d.error == e.error
            &&& d.created_at == e.created_at
            &&& d.updated_at == e.updated_at
            &&& d.claimed_at == e.claimed_at
            &&& d.sent_at == e.sent_at
            &&& e.seen_busy ==> d.seen_busy
            &&& e.state is Armed && r.running is Some && r.running->0 >= 1 ==> d.seen_busy
            &&& !(e.state is Armed) || r.running is None || r.running->0 == 0 ==> d.seen_busy
                == e.seen_busy
        }),
{
}

/// Deleting takes one draft away and leaves the order of the others.
pub proof fn a_delete_takes_one_away(s: StoreView, i: int)
    requires
        s.wf(),
        0 <= i < s.rows.len(),
    ensures
        ({
            let t = s.without(s.rows[i].id);
            &&& t.get(s.rows[i].id) is None
            &&& t.rows.len() == s.rows.len() - 1
            &&& forall|j: int| 0 <= j < i ==> #[trigger] t.rows[j] == s.rows[j]
            &&& forall|j: int| i <= j < t.rows.len() ==> #[trigger] t.rows[j] == s.rows[j + 1]
            &&& t.settings == s.settings
        }),
{
    lemma_place(s.rows, s.rows[i].id, i);
    crate::laws::changes::deleted_is_gone(s, s.rows[i].id);
}

/// The row that is kept of a draft has each of its fields in its own column.
pub proof fn a_record_has_every_field(r: DraftRecord, d: DraftView)
    requires
        describes(r, d),
    ensures
        r.id@ == d.id,
        r.text@ == d.text,
        reads(r.conversation_id, d.conversation_id),
        reads(r.agent_id, d.agent_id),
        reads(r.model, d.model),
        reads(r.folder_path, d.folder_path),
        r.trigger is Some && r.trigger->0@ == d.trigger,
        reads(r.error, d.error),
        r.created_at == d.created_at,
        r.updated_at == d.updated_at,
        r.claimed_at == d.claimed_at,
        r.sent_at == d.sent_at,
        d.seen_busy ==> r.seen_busy == Some(1i64),
        !d.seen_busy ==> r.seen_busy == Some(0i64),
{
}

/// The draft that a row stands for has each of its columns in its own field. A latch that is
/// not there is not set, and any number but zero is one that is.
pub proof fn a_record_is_read_field_by_field(r: DraftRecord)
    ensures
        r.draft().id == r.id@,
        r.draft().text == r.text@,
        reads(r.conversation_id, r.draft().conversation_id),
        reads(r.agent_id, r.draft().agent_id),
        reads(r.model, r.draft().model),
        reads(r.folder_path, r.draft().folder_path),
        r.trigger is Some ==> r.draft().trigger == r.trigger->0@,
        r.trigger is None ==> r.draft().trigger is Manual,
        reads(r.error, r.draft().error),
        r.draft().created_at == r.created_at,
        r.draft().updated_at == r.updated_at,
        r.draft().claimed_at == r.claimed_at,
        r.draft().sent_at == r.sent_at,
        r.draft().seen_busy <==> r.seen_busy is Some && r.seen_busy->0 != 0,
        r.draft().source == Source::named(r.source@),
        r.draft().state == State::named(r.state@),
{
}

} // verus!
