//! What a call on the outbox does, in terms of what it is given, what it returns and what is
//! found afterwards.

use vstd::prelude::*;

use crate::laws::changes::{
    deleted_is_gone, found_under_its_id, observing_only_latches, other_drafts_are_left_alone,
    Change,
};
use crate::laws::fields::{
    a_blank_save_deletes, a_claim_changes_nothing_else,
    a_claim_is_won_exactly_where_the_draft_is_free, a_condition_changes_nothing_else,
    a_condition_is_refused_where_it_cannot_be_given, a_new_draft_is_kept_whole,
    a_reading_changes_nothing_else, a_reported_failure_changes_nothing_else,
    a_reported_send_changes_nothing_else, an_edit_takes_what_is_given, every_draft_is_found,
    has_text, reads, writable,
};
use crate::laws::lists::{
    no_list_repeats_a_draft, the_history_goes_by_when_drafts_were_sent,
    the_history_shows_what_is_sent, the_queue_is_what_may_go, the_sidebar_shows_what_is_not_sent,
};
use crate::laws::sending::may_go;
use crate::laws::waiting::busy;
use crate::models::{Draft, DraftView, Readings, Settings, State, Trigger};
use crate::store::{
    describes, drafts_view, found, on_clock, outcome, BeingSent, DraftRecord, Store, StoreView,
};
use crate::text::{is_space, str_view};

verus! {

/// Every other draft, and the settings, are as before.
pub open spec fn alone(before: StoreView, id: Seq<char>, after: StoreView) -> bool {
    &&& forall|other: Seq<char>|
        other != id ==> #[trigger] after.get(other) == before.get(other)
    &&& after.settings == before.settings
}

/// The two drafts have the same message: the text, and where it goes.
pub open spec fn same_message(a: DraftView, b: DraftView) -> bool {
    &&& a.id == b.id
    &&& a.text == b.text
    &&& a.agent_id == b.agent_id
    &&& a.model == b.model
    &&& a.folder_path == b.folder_path
    &&& a.source == b.source
    &&& a.created_at == b.created_at
}

/// What a save does: a text of white space alone takes the draft away, a draft that is being sent
/// is left alone, and any other is kept with what is given.
pub open spec fn saved(
    before: StoreView,
    draft: Draft,
    now: i64,
    r: Result<Option<Draft>, BeingSent>,
    after: StoreView,
) -> bool {
    let id = draft.id@;
    &&& alone(before, id, after)
    &&& if !has_text(draft.text@) {
        &&& r matches Ok(d) && d is None
        &&& after.get(id) is None
    } else if before.get(id) is Some && before.get(id)->0.state is Sending {
        &&& r matches Err(e) && e.id@ == id
        &&& after == before
    } else {
        &&& r is Ok && r->Ok_0 is Some
        &&& ({
            let d = r->Ok_0->0@;
            &&& after.get(id) == Some(d)
            &&& d.id == id
            &&& d.text == draft.text@
            &&& reads(draft.conversation_id, d.conversation_id)
            &&& reads(draft.agent_id, d.agent_id)
            &&& reads(draft.model, d.model)
            &&& reads(draft.folder_path, d.folder_path)
            &&& writable(draft.trigger@) ==> d.trigger == draft.trigger@
            &&& d.updated_at == now
            &&& d.state is Armed ==> !d.seen_busy
            &&& draft.state is Armed ==> d.state is Armed
            &&& before.get(id) is None ==> {
                &&& d.created_at == now
                &&& d.source == draft.source
                &&& d.state == draft.state
                &&& d.claimed_at == draft.claimed_at
                &&& d.sent_at == draft.sent_at
                &&& reads(draft.error, d.error)
                &&& !d.seen_busy
            }
            &&& before.get(id) matches Some(e) ==> {
                &&& d.created_at == e.created_at
                &&& d.source == e.source
                &&& d.claimed_at == e.claimed_at
                &&& d.sent_at == e.sent_at
                &&& e.state is Failed ==> d.error is None
                &&& e.state is Failed && !(draft.state is Armed) ==> d.state is Draft
                &&& !(e.state is Failed) ==> d.state == draft.state && reads(draft.error, d.error)
                &&& !(d.state is Armed) ==> d.seen_busy == e.seen_busy
            }
        })
    }
}

/// What a save at an instant does.
pub proof fn a_save_at_an_instant(
    store: &mut Store,
    draft: Draft,
    now: i64,
    r: Result<Option<Draft>, BeingSent>,
)
    requires
        old(store).wf(),
        call_ensures(Store::upsert_at, (store, draft, now), r),
    ensures
        saved(old(store)@, draft, now, r, final(store)@),
        final(store).wf(),
{
    assert((final(store)@, outcome(r)) == old(store)@.upsert(draft@, now));
    lemma_saved(old(store)@, draft, now, r, final(store)@);
}

/// What a save does.
pub proof fn a_save_now(store: &mut Store, draft: Draft, r: Result<Option<Draft>, BeingSent>)
    requires
        old(store).wf(),
        call_ensures(Store::upsert, (store, draft), r),
    ensures
        exists|now: i64| on_clock(now) && #[trigger] saved(
            old(store)@,
            draft,
            now,
            r,
            final(store)@,
        ),
        final(store).wf(),
{
    let now = choose|now: i64|
        on_clock(now) && (final(store)@, outcome(r)) == #[trigger] old(store)@.upsert(draft@, now);
    lemma_saved(old(store)@, draft, now, r, final(store)@);
}

/// What a save does, from the state before and after.
proof fn lemma_saved(
    s: StoreView,
    draft: Draft,
    now: i64,
    r: Result<Option<Draft>, BeingSent>,
    t: StoreView,
)
    requires
        s.wf(),
        (t, outcome(r)) == s.upsert(draft@, now),
    ensures
        saved(s, draft, now, r, t),
{
    let id = draft.id@;
    assert forall|other: Seq<char>| other != id implies #[trigger] t.get(other) == s.get(other) by {
        other_drafts_are_left_alone(s, Change::Save { draft: draft@ }, now, id, other);
    }
    assert(t.settings == s.settings);
    if !has_text(draft.text@) {
        a_blank_save_deletes(s, draft@, now);
    } else {
        let i = choose|i: int| 0 <= i < draft.text@.len() && !is_space(#[trigger] draft.text@[i]);
        assert(!is_space(draft@.text[i]));
        if s.get(id) is None {
            a_new_draft_is_kept_whole(s, draft@, now);
        } else if !(s.get(id)->0.state is Sending) {
            an_edit_takes_what_is_given(s, draft@, now);
        }
    }
}

/// What giving a draft a condition does: one that is not there, or is being sent, is left alone;
/// any other keeps its message and its place in the queue, and is armed, or idle where the
/// condition is none.
pub open spec fn conditioned(
    before: StoreView,
    id: Seq<char>,
    trigger: Trigger,
    now: i64,
    r: Result<Option<Draft>, BeingSent>,
    after: StoreView,
) -> bool {
    &&& alone(before, id, after)
    &&& match before.get(id) {
        None => after == before && (r matches Ok(d) && d is None),
        Some(e) => if e.state is Sending {
            after == before && (r matches Err(b) && b.id@ == id)
        } else {
            &&& r is Ok && r->Ok_0 is Some
            &&& ({
                let d = r->Ok_0->0@;
                &&& after.get(id) == Some(d)
                &&& same_message(d, e)
                &&& d.conversation_id == e.conversation_id
                &&& d.claimed_at == e.claimed_at
                &&& d.sent_at == e.sent_at
                &&& d.updated_at == now
                &&& d.error is None
                &&& !d.seen_busy
                &&& trigger is Manual <==> d.state is Draft
                &&& !(trigger is Manual) <==> d.state is Armed
                &&& writable(trigger@) ==> d.trigger == trigger@
            })
        },
    }
}

/// What giving a draft a condition at an instant does.
pub proof fn a_condition_at_an_instant(
    store: &mut Store,
    id: &str,
    trigger: Trigger,
    now: i64,
    r: Result<Option<Draft>, BeingSent>,
)
    requires
        old(store).wf(),
        call_ensures(Store::set_trigger_at, (store, id, trigger, now), r),
    ensures
        conditioned(old(store)@, id@, trigger, now, r, final(store)@),
        final(store).wf(),
{
    assert((final(store)@, outcome(r)) == old(store)@.set_trigger(id@, trigger@, now));
    lemma_conditioned(old(store)@, id@, trigger, now, r, final(store)@);
}

/// What giving a draft a condition does.
pub proof fn a_condition_now(
    store: &mut Store,
    id: &str,
    trigger: Trigger,
    r: Result<Option<Draft>, BeingSent>,
)
    requires
        old(store).wf(),
        call_ensures(Store::set_trigger, (store, id, trigger), r),
    ensures
        exists|now: i64|
            on_clock(now) && #[trigger] conditioned(
                old(store)@,
                id@,
                trigger,
                now,
                r,
                final(store)@,
            ),
        final(store).wf(),
{
    let now = choose|now: i64|
        on_clock(now) && (final(store)@, outcome(r)) == #[trigger] old(store)@.set_trigger(
            id@,
            trigger@,
            now,
        );
    lemma_conditioned(old(store)@, id@, trigger, now, r, final(store)@);
}

/// What a condition does, from the state before and after.
proof fn lemma_conditioned(
    s: StoreView,
    id: Seq<char>,
    trigger: Trigger,
    now: i64,
    r: Result<Option<Draft>, BeingSent>,
    t: StoreView,
)
    requires
        s.wf(),
        (t, outcome(r)) == s.set_trigger(id, trigger@, now),
    ensures
        conditioned(s, id, trigger, now, r, t),
{
    assert forall|other: Seq<char>| other != id implies #[trigger] t.get(other) == s.get(other) by {
        let change = Change::SetTrigger { id, trigger: trigger@ };
        other_drafts_are_left_alone(s, change, now, id, other);
    }
    if s.get(id) is Some && !(s.get(id)->0.state is Sending) {
        a_condition_changes_nothing_else(s, id, trigger@, now);
    } else {
        a_condition_is_refused_where_it_cannot_be_given(s, id, trigger@, now);
    }
}

/// What a claim does: it is won where the draft is in a known state and idle, armed, or claimed
/// for more than two minutes, and then the draft is being sent from that instant with everything
/// else as it was; else nothing changes.
pub open spec fn claimed(
    before: StoreView,
    id: Seq<char>,
    now: i64,
    r: Option<Draft>,
    after: StoreView,
) -> bool {
    let free = before.get(id) is Some && !before.unknown_states.dom().contains(id) && match before.get(
        id,
    )->0.state {
        State::Draft => true,
        State::Armed => true,
        State::Sending => before.get(id)->0.claimed_at is Some && before.get(id)->0.claimed_at->0
            + 120_000 < now,
        State::Sent => false,
        State::Failed => false,
    };
    &&& alone(before, id, after)
    &&& r is Some <==> free
    &&& r is None ==> after == before
    &&& r matches Some(d) ==> {
        let e = before.get(id)->0;
        &&& after.get(id) == Some(d@)
        &&& d@.state is Sending
        &&& d@.claimed_at == Some(now)
        &&& d@.updated_at == now
        &&& same_message(d@, e)
        &&& d@.conversation_id == e.conversation_id
        &&& d@.trigger == e.trigger
        &&& d@.error == e.error
        &&& d@.seen_busy == e.seen_busy
        &&& d@.sent_at == e.sent_at
    }
}

/// What a claim at an instant does.
pub proof fn a_claim_at_an_instant(store: &mut Store, id: &str, now: i64, r: Option<Draft>)
    requires
        old(store).wf(),
        call_ensures(Store::claim_at, (store, id, now), r),
    ensures
        claimed(old(store)@, id@, now, r, final(store)@),
        final(store).wf(),
{
    assert((final(store)@, found(r)) == old(store)@.claim(id@, now));
    lemma_claimed(old(store)@, id@, now, r, final(store)@);
}

/// What a claim does.
pub proof fn a_claim_now(store: &mut Store, id: &str, r: Option<Draft>)
    requires
        old(store).wf(),
        call_ensures(Store::claim, (store, id), r),
    ensures
        exists|now: i64| on_clock(now) && #[trigger] claimed(
            old(store)@,
            id@,
            now,
            r,
            final(store)@,
        ),
        final(store).wf(),
{
    let now = choose|now: i64|
        on_clock(now) && (final(store)@, found(r)) == #[trigger] old(store)@.claim(id@, now);
    lemma_claimed(old(store)@, id@, now, r, final(store)@);
}

/// What a claim does, from the state before and after.
proof fn lemma_claimed(s: StoreView, id: Seq<char>, now: i64, r: Option<Draft>, t: StoreView)
    requires
        s.wf(),
        (t, found(r)) == s.claim(id, now),
    ensures
        claimed(s, id, now, r, t),
{
    assert forall|other: Seq<char>| other != id implies #[trigger] t.get(other) == s.get(other) by {
        other_drafts_are_left_alone(s, Change::Claim { id }, now, id, other);
    }
    a_claim_is_won_exactly_where_the_draft_is_free(s, id, now);
    if s.claim(id, now).1 is Some {
        a_claim_changes_nothing_else(s, id, now);
    }
}

/// What the report of a send does: the draft is sent at that instant, in the conversation that is
/// named or else its own, with its message as it was. Where there is no draft nothing changes.
pub open spec fn sent(
    before: StoreView,
    id: Seq<char>,
    conversation_id: Option<&str>,
    now: i64,
    r: Option<Draft>,
    after: StoreView,
) -> bool {
    &&& alone(before, id, after)
    &&& r is Some <==> before.get(id) is Some
    &&& r is None ==> after == before
    &&& r matches Some(d) ==> {
        let e = before.get(id)->0;
        &&& after.get(id) == Some(d@)
        &&& d@.state is Sent
        &&& d@.sent_at == Some(now)
        &&& d@.updated_at == now
        &&& d@.claimed_at is None
        &&& d@.error is None
        &&& same_message(d@, e)
        &&& d@.trigger == e.trigger
        &&& conversation_id matches Some(c) ==> d@.conversation_id == Some(c@)
        &&& conversation_id is None ==> d@.conversation_id == e.conversation_id
    }
}

/// What the report of a send at an instant does.
pub proof fn a_report_of_a_send_at_an_instant(
    store: &mut Store,
    id: &str,
    conversation_id: Option<&str>,
    now: i64,
    r: Option<Draft>,
)
    requires
        old(store).wf(),
        call_ensures(Store::mark_sent_at, (store, id, conversation_id, now), r),
    ensures
        sent(old(store)@, id@, conversation_id, now, r, final(store)@),
        final(store).wf(),
{
    assert((final(store)@, found(r)) == old(store)@.mark_sent(
        id@,
        str_view(conversation_id),
        now,
    ));
    lemma_sent(old(store)@, id@, conversation_id, now, r, final(store)@);
}

/// What the report of a send does.
pub proof fn a_report_of_a_send_now(
    store: &mut Store,
    id: &str,
    conversation_id: Option<&str>,
    r: Option<Draft>,
)
    requires
        old(store).wf(),
        call_ensures(Store::mark_sent, (store, id, conversation_id), r),
    ensures
        exists|now: i64|
            on_clock(now) && #[trigger] sent(
                old(store)@,
                id@,
                conversation_id,
                now,
                r,
                final(store)@,
            ),
        final(store).wf(),
{
    let now = choose|now: i64|
        on_clock(now) && (final(store)@, found(r)) == #[trigger] old(store)@.mark_sent(
            id@,
            str_view(conversation_id),
            now,
        );
    lemma_sent(old(store)@, id@, conversation_id, now, r, final(store)@);
}

/// What a reported send does, from the state before and after.
proof fn lemma_sent(
    s: StoreView,
    id: Seq<char>,
    conversation_id: Option<&str>,
    now: i64,
    r: Option<Draft>,
    t: StoreView,
)
    requires
        s.wf(),
        (t, found(r)) == s.mark_sent(id, str_view(conversation_id), now),
    ensures
        sent(s, id, conversation_id, now, r, t),
{
    let c = str_view(conversation_id);
    assert forall|other: Seq<char>| other != id implies #[trigger] t.get(other) == s.get(other) by {
        other_drafts_are_left_alone(s, Change::Sent { id, conversation_id: c }, now, id, other);
    }
    a_reported_send_changes_nothing_else(s, id, c, now);
}

/// What the report of a failure does: the draft has failed with that reason, its message as it
/// was. Where there is no draft nothing changes.
pub open spec fn failed(
    before: StoreView,
    id: Seq<char>,
    error: Seq<char>,
    now: i64,
    r: Option<Draft>,
    after: StoreView,
) -> bool {
    &&& alone(before, id, after)
    &&& r is Some <==> before.get(id) is Some
    &&& r is None ==> after == before
    &&& r matches Some(d) ==> {
        let e = before.get(id)->0;
        &&& after.get(id) == Some(d@)
        &&& d@.state is Failed
        &&& d@.error == Some(error)
        &&& d@.updated_at == now
        &&& d@.claimed_at is None
        &&& same_message(d@, e)
        &&& d@.conversation_id == e.conversation_id
        &&& d@.trigger == e.trigger
        &&& d@.seen_busy == e.seen_busy
        &&& d@.sent_at == e.sent_at
    }
}

/// What the report of a failure at an instant does.
pub proof fn a_report_of_a_failure_at_an_instant(
    store: &mut Store,
    id: &str,
    error: &str,
    now: i64,
    r: Option<Draft>,
)
    requires
        old(store).wf(),
        call_ensures(Store::mark_failed_at, (store, id, error, now), r),
    ensures
        failed(old(store)@, id@, error@, now, r, final(store)@),
        final(store).wf(),
{
    assert((final(store)@, found(r)) == old(store)@.mark_failed(id@, error@, now));
    lemma_failed(old(store)@, id@, error@, now, r, final(store)@);
}

/// What the report of a failure does.
pub proof fn a_report_of_a_failure_now(store: &mut Store, id: &str, error: &str, r: Option<Draft>)
    requires
        old(store).wf(),
        call_ensures(Store::mark_failed, (store, id, error), r),
    ensures
        exists|now: i64| on_clock(now) && #[trigger] failed(
            old(store)@,
            id@,
            error@,
            now,
            r,
            final(store)@,
        ),
        final(store).wf(),
{
    let now = choose|now: i64|
        on_clock(now) && (final(store)@, found(r)) == #[trigger] old(store)@.mark_failed(
            id@,
            error@,
            now,
        );
    lemma_failed(old(store)@, id@, error@, now, r, final(store)@);
}

/// What a reported failure does, from the state before and after.
proof fn lemma_failed(
    s: StoreView,
    id: Seq<char>,
    error: Seq<char>,
    now: i64,
    r: Option<Draft>,
    t: StoreView,
)
    requires
        s.wf(),
        (t, found(r)) == s.mark_failed(id, error, now),
    ensures
        failed(s, id, error, now, r, t),
{
    assert forall|other: Seq<char>| other != id implies #[trigger] t.get(other) == s.get(other) by {
        other_drafts_are_left_alone(s, Change::Failed { id, error }, now, id, other);
    }
    a_reported_failure_changes_nothing_else(s, id, error, now);
}

/// A draft is found exactly where one with that id is in the outbox, and as it is there.
pub proof fn a_lookup_finds_what_is_there(store: Store, id: &str, r: Option<Draft>)
    requires
        store.wf(),
        call_ensures(Store::get, (&store, id), r),
    ensures
        r is Some <==> exists|i: int|
            0 <= i < store@.rows.len() && (#[trigger] store@.rows[i]).id == id@,
        r matches Some(d) ==> d@.id == id@ && store@.rows.contains(d@),
{
    assert(found(r) == store@.get(id@));
    found_under_its_id(store@, id@);
    if exists|i: int| 0 <= i < store@.rows.len() && (#[trigger] store@.rows[i]).id == id@ {
        let i = choose|i: int| 0 <= i < store@.rows.len() && (#[trigger] store@.rows[i]).id == id@;
        every_draft_is_found(store@, i);
        assert(store@.rows.contains(store@.rows[i]));
    }
}

/// A deletion says whether there was a draft, and afterwards there is none.
pub proof fn a_deletion_says_what_it_did(store: &mut Store, id: &str, r: bool)
    requires
        old(store).wf(),
        call_ensures(Store::delete, (store, id), r),
    ensures
        r <==> old(store)@.get(id@) is Some,
        final(store)@.get(id@) is None,
        alone(old(store)@, id@, final(store)@),
        final(store).wf(),
{
    deleted_is_gone(old(store)@, id@);
}

/// Wiping says how many drafts there were, and afterwards there is none; the settings stay.
pub proof fn wiping_says_what_it_did(store: &mut Store, n: usize, id: Seq<char>)
    requires
        old(store).wf(),
        call_ensures(Store::delete_all, (store,), n),
    ensures
        n == old(store)@.rows.len(),
        final(store)@.rows.len() == 0,
        final(store)@.get(id) is None,
        final(store)@.settings == old(store)@.settings,
        final(store).wf(),
{
}

/// A fresh outbox holds nothing.
pub proof fn a_fresh_outbox_holds_nothing(s: Store, id: Seq<char>)
    requires
        call_ensures(Store::memory, (), s),
    ensures
        s@.rows.len() == 0,
        s@.get(id) is None,
        s@.settings is None,
        s.wf(),
{
}

/// Settings that are kept are the ones that are read, and the drafts stay.
pub proof fn kept_settings_are_read(store: &mut Store, settings: Settings, after: Store, r: Settings)
    requires
        old(store).wf(),
        call_ensures(Store::save_settings, (store, &settings), ()),
        after@ == final(store)@,
        call_ensures(Store::settings, (&after,), r),
    ensures
        r == settings,
        final(store)@.rows == old(store)@.rows,
        final(store)@.unknown_states == old(store)@.unknown_states,
        final(store).wf(),
{
}

/// Where no settings are kept, the defaults are read.
pub proof fn missing_settings_are_the_defaults(store: Store, r: Settings, d: Settings)
    requires
        store@.settings is None,
        call_ensures(Store::settings, (&store,), r),
        call_ensures(<Settings as Default>::default, (), d),
    ensures
        r == d,
        r.autosave_enabled,
        r.autosave_min_chars == 4,
        !r.auto_queue_enabled,
        r.max_concurrent == 3,
{
}

/// The open list has every draft that is not sent, once, and none that is; one that was touched
/// later stands before one that was touched earlier.
pub proof fn the_open_list_has_what_is_not_sent(store: Store, r: Vec<Draft>)
    requires
        store.wf(),
        call_ensures(Store::list_open, (&store,), r),
    ensures
        forall|i: int|
            0 <= i < r@.len() ==> store@.rows.contains((#[trigger] r@[i])@) && !(
            r@[i].state is Sent),
        forall|k: int|
            0 <= k < store@.rows.len() && !((#[trigger] store@.rows[k]).state is Sent)
                ==> exists|i: int| 0 <= i < r@.len() && (#[trigger] r@[i])@ == store@.rows[k],
        forall|i: int, j: int|
            0 <= i < j < r@.len() ==> (#[trigger] r@[i]).updated_at >= (
            #[trigger] r@[j]).updated_at && r@[i].id@ != r@[j].id@,
{
    let s = store@;
    let shown = drafts_view(r@);
    assert(shown == s.open_drafts());
    the_sidebar_shows_what_is_not_sent(s);
    no_list_repeats_a_draft(s, arbitrary(), 0);
    assert forall|i: int| 0 <= i < r@.len() implies s.rows.contains((#[trigger] r@[i])@) && !(
    r@[i].state is Sent) by {
        assert(shown[i] == r@[i]@);
        assert(shown.contains(shown[i]));
    }
    assert forall|k: int|
        0 <= k < s.rows.len() && !((#[trigger] s.rows[k]).state is Sent) implies exists|i: int|
        0 <= i < r@.len() && (#[trigger] r@[i])@ == s.rows[k] by {
        assert(s.rows.contains(s.rows[k]));
        assert(shown.contains(s.rows[k]));
        let i = choose|i: int| 0 <= i < shown.len() && shown[i] == s.rows[k];
        assert(r@[i]@ == s.rows[k]);
    }
    assert forall|i: int, j: int| 0 <= i < j < r@.len() implies (#[trigger] r@[i]).updated_at >= (
    #[trigger] r@[j]).updated_at && r@[i].id@ != r@[j].id@ by {
        assert(shown[i] == r@[i]@);
        assert(shown[j] == r@[j]@);
    }
}

/// The sent list has drafts that are sent, once each and no more than asked for, the one sent
/// later before the one sent earlier; one is left out only where that many are shown, and then
/// it was sent no later than any of them.
pub proof fn the_sent_list_goes_by_when_drafts_were_sent(store: Store, limit: u32, r: Vec<Draft>)
    requires
        store.wf(),
        call_ensures(Store::list_sent, (&store, limit), r),
    ensures
        r@.len() <= limit,
        forall|i: int|
            0 <= i < r@.len() ==> store@.rows.contains((#[trigger] r@[i])@) && r@[i].state is Sent,
        forall|i: int, j: int|
            0 <= i < j < r@.len() ==> (#[trigger] r@[i]).id@ != (#[trigger] r@[j]).id@ && (
            r@[j].sent_at is Some ==> r@[i].sent_at is Some && r@[i].sent_at->0
                >= r@[j].sent_at->0),
        forall|k: int|
            0 <= k < store@.rows.len() && (#[trigger] store@.rows[k]).state is Sent ==> {
                ||| exists|i: int| 0 <= i < r@.len() && (#[trigger] r@[i])@ == store@.rows[k]
                ||| r@.len() == limit && forall|i: int|
                    0 <= i < r@.len() && store@.rows[k].sent_at is Some ==> (
                    #[trigger] r@[i]).sent_at is Some && r@[i].sent_at->0
                        >= store@.rows[k].sent_at->0
            },
{
    let s = store@;
    let shown = drafts_view(r@);
    assert(shown == s.sent_drafts(limit as nat));
    the_history_shows_what_is_sent(s, limit as nat);
    the_history_goes_by_when_drafts_were_sent(s, limit as nat);
    no_list_repeats_a_draft(s, arbitrary(), limit as nat);
    assert forall|i: int| 0 <= i < r@.len() implies s.rows.contains((#[trigger] r@[i])@)
        && r@[i].state is Sent by {
        assert(shown[i] == r@[i]@);
        assert(shown.contains(shown[i]));
    }
    assert forall|i: int, j: int| 0 <= i < j < r@.len() implies (#[trigger] r@[i]).id@ != (
    #[trigger] r@[j]).id@ && (r@[j].sent_at is Some ==> r@[i].sent_at is Some && r@[i].sent_at->0
        >= r@[j].sent_at->0) by {
        assert(shown[i] == r@[i]@);
        assert(shown[j] == r@[j]@);
    }
    assert forall|k: int| 0 <= k < s.rows.len() && (#[trigger] s.rows[k]).state is Sent implies {
        ||| exists|i: int| 0 <= i < r@.len() && (#[trigger] r@[i])@ == s.rows[k]
        ||| r@.len() == limit && forall|i: int|
            0 <= i < r@.len() && s.rows[k].sent_at is Some ==> (#[trigger] r@[i]).sent_at is Some
                && r@[i].sent_at->0 >= s.rows[k].sent_at->0
    } by {
        assert(s.rows.contains(s.rows[k]));
        if shown.contains(s.rows[k]) {
            let i = choose|i: int| 0 <= i < shown.len() && shown[i] == s.rows[k];
            assert(r@[i]@ == s.rows[k]);
        } else {
            assert forall|i: int| 0 <= i < r@.len() && s.rows[k].sent_at is Some implies (
            #[trigger] r@[i]).sent_at is Some && r@[i].sent_at->0 >= s.rows[k].sent_at->0 by {
                assert(shown[i] == r@[i]@);
                assert(shown.contains(shown[i]));
            }
        }
    }
}

/// The ready list has every draft that may go on the readings, once, and none that may not; the
/// one written first stands first. Armed drafts remember work that is seen; nothing else changes.
pub proof fn the_ready_list_has_what_may_go(store: &mut Store, readings: Readings, r: Vec<Draft>)
    requires
        old(store).wf(),
        call_ensures(Store::ready, (store, &readings), r),
    ensures
        forall|i: int|
            0 <= i < r@.len() ==> old(store)@.get((#[trigger] r@[i]).id@) is Some && may_go(
                old(store)@.get(r@[i].id@)->0,
                readings@,
            ) && final(store)@.get(r@[i].id@) == Some(r@[i]@),
        forall|k: int|
            0 <= k < old(store)@.rows.len() && may_go(
                #[trigger] old(store)@.rows[k],
                readings@,
            ) ==> exists|i: int|
                0 <= i < r@.len() && (#[trigger] r@[i]).id@ == old(store)@.rows[k].id,
        forall|i: int, j: int|
            0 <= i < j < r@.len() ==> (#[trigger] r@[i]).created_at <= (
            #[trigger] r@[j]).created_at && r@[i].id@ != r@[j].id@,
        final(store).wf(),
        final(store)@.settings == old(store)@.settings,
        forall|id: Seq<char>|
            #[trigger] final(store)@.get(id) == (match old(store)@.get(id) {
                Some(d) => Some(
                    DraftView {
                        seen_busy: d.seen_busy || (d.state is Armed && busy(readings@)),
                        ..d
                    },
                ),
                None => None,
            }),
{
    let s = old(store)@;
    let v = readings@;
    let t = s.observe(v);
    let queue = drafts_view(r@);
    assert(queue == t.releasable(v));
    observing_only_latches(s, v);
    the_queue_is_what_may_go(t, v);
    no_list_repeats_a_draft(t, v, 0);
    assert forall|i: int| 0 <= i < r@.len() implies s.get((#[trigger] r@[i]).id@) is Some && may_go(
        s.get(r@[i].id@)->0,
        v,
    ) && t.get(r@[i].id@) == Some(r@[i]@) by {
        assert(queue[i] == r@[i]@);
        assert(queue.contains(queue[i]));
        let k = choose|k: int| 0 <= k < t.rows.len() && t.rows[k] == queue[i];
        every_draft_is_found(t, k);
        a_reading_changes_nothing_else(s, v, k);
        every_draft_is_found(s, k);
    }
    assert forall|k: int|
        0 <= k < s.rows.len() && may_go(#[trigger] s.rows[k], v) implies exists|i: int|
        0 <= i < r@.len() && (#[trigger] r@[i]).id@ == s.rows[k].id by {
        a_reading_changes_nothing_else(s, v, k);
        assert(t.rows.contains(t.rows[k]));
        assert(queue.contains(t.rows[k]));
        let i = choose|i: int| 0 <= i < queue.len() && queue[i] == t.rows[k];
        assert(r@[i]@ == queue[i]);
    }
    assert forall|i: int, j: int| 0 <= i < j < r@.len() implies (#[trigger] r@[i]).created_at <= (
    #[trigger] r@[j]).created_at && r@[i].id@ != r@[j].id@ by {
        assert(queue[i] == r@[i]@);
        assert(queue[j] == r@[j]@);
    }
}

/// An outbox that is written out as rows and read in again is the same outbox.
pub proof fn an_outbox_is_read_back(
    store: Store,
    rows: Vec<DraftRecord>,
    settings: Option<Settings>,
    back: Store,
)
    requires
        store.wf(),
        settings == store@.settings,
        call_ensures(Store::rows, (&store,), rows),
        call_ensures(Store::load, (&rows, settings), back),
    ensures
        back@ == store@,
        back.wf(),
{
    crate::laws::keeping::the_table_is_read_back(store@, rows@, back@);
}

/// The name is that of one of the five states.
pub open spec fn known_state(name: Seq<char>) -> bool {
    ||| name == "draft"@
    ||| name == "armed"@
    ||| name == "sending"@
    ||| name == "sent"@
    ||| name == "failed"@
}

/// An outbox that is read in has a draft for each row, in their order, and knows of those whose
/// state has no name that it is none.
pub proof fn rows_are_read_in_order(rows: Vec<DraftRecord>, settings: Option<Settings>, s: Store)
    requires
        call_ensures(Store::load, (&rows, settings), s),
    ensures
        s@.settings == settings,
        s@.rows.len() == rows@.len(),
        forall|i: int| 0 <= i < rows@.len() ==> #[trigger] s@.rows[i] == rows@[i].draft(),
        forall|i: int|
            0 <= i < rows@.len() ==> (s@.unknown_states.dom().contains((#[trigger] rows@[i]).id@)
                <==> !known_state(rows@[i].state@)),
        s.wf(),
{
    assert forall|i: int| 0 <= i < rows@.len() implies (s@.unknown_states.dom().contains(
        (#[trigger] rows@[i]).id@,
    ) <==> !known_state(rows@[i].state@)) by {
        lemma_known_state(rows@[i].state@);
    }
}

/// A name is that of a state exactly where it is one of the five.
proof fn lemma_known_state(name: Seq<char>)
    ensures
        State::is_name(name) <==> known_state(name),
{
    if known_state(name) {
        let s = if name == "draft"@ {
            State::Draft
        } else if name == "armed"@ {
            State::Armed
        } else if name == "sending"@ {
            State::Sending
        } else if name == "sent"@ {
            State::Sent
        } else {
            State::Failed
        };
        assert(s.name() == name);
        crate::models::state_name_round_trip(s);
    }
}

/// An outbox is written out as one row for each draft, in their order.
pub proof fn rows_are_written_in_order(store: Store, rows: Vec<DraftRecord>)
    requires
        call_ensures(Store::rows, (&store,), rows),
    ensures
        rows@.len() == store@.rows.len(),
        forall|i: int|
            0 <= i < rows@.len() ==> (#[trigger] rows@[i]).id@ == store@.rows[i].id && rows@[i].text@
                == store@.rows[i].text && describes(rows@[i], store@.rows[i]),
        forall|i: int|
            0 <= i < rows@.len() && !store@.unknown_states.dom().contains(store@.rows[i].id) ==> (
            #[trigger] rows@[i]).state@ == store@.rows[i].state.name(),
{
}

} // verus!
