//! What a request does, in terms of what it is given, what it is answered and what is found
//! afterwards.

use vstd::prelude::*;

use crate::api::{
    arm, claim, delete_all, delete_one, disarm, failed, get_one, get_settings, history, list,
    put_settings, queue, queue_at, rows_view, save, save_id, save_one, sent, valid_id, Body, Ctx,
    Reply, SaveBody,
};
use crate::laws::answers::{
    a_claim_is_answered, a_condition_is_answered, a_report_of_a_failure_is_answered,
    a_report_of_a_send_is_answered, a_save_is_answered, complains, settings_are_answered, shows,
};
use crate::laws::calls::{alone, same_message};
use crate::laws::changes::{deleted_is_gone, other_drafts_are_left_alone, Change};
use crate::laws::fields::{
    a_claim_changes_nothing_else, a_claim_is_won_exactly_where_the_draft_is_free,
    a_condition_changes_nothing_else, a_reported_failure_changes_nothing_else,
    a_reported_send_changes_nothing_else, a_save_keeps_what_its_body_says, has_text, reads,
    writable,
};
use crate::models::{DraftView, ReadingsView, Settings, Source, Trigger, TriggerView};
use crate::percent::Percent;
use crate::query::{limit_of, readings_read};
use crate::store::{on_clock, StoreView};
use crate::text::{opt_view, str_view};

verus! {

/// The answer is a list with a row for each of the drafts, in their order.
pub open spec fn lists(r: Reply, drafts: Seq<DraftView>) -> bool {
    &&& r.status == 200
    &&& r.body matches Body::Drafts(rows) && rows@.len() == drafts.len() && forall|i: int|
        0 <= i < rows@.len() ==> (#[trigger] rows@[i]).draft@ == drafts[i]
}

/// The answered rows are those of the drafts.
proof fn lemma_lists(r: Reply, drafts: Seq<DraftView>)
    requires
        r@ == crate::api::drafts_answer(drafts),
    ensures
        lists(r, drafts),
{
    match r.body {
        Body::Drafts(rows) => {
            assert(rows_view(rows@) == crate::api::rows_of(drafts));
            assert(rows_view(rows@).len() == rows@.len());
            assert(crate::api::rows_of(drafts).len() == drafts.len());
            assert forall|i: int| 0 <= i < rows@.len() implies (#[trigger] rows@[i]).draft@
                == drafts[i] by {
                assert(rows_view(rows@)[i] == rows@[i]@);
                assert(crate::api::rows_of(drafts)[i] == drafts[i].row());
            }
        },
        _ => {},
    }
}

/// The list is of the drafts that are not sent.
pub proof fn the_list_is_of_what_is_open(ctx: Ctx, r: Reply)
    requires
        call_ensures(list, (&ctx,), r),
    ensures
        lists(r, ctx.store@.open_drafts()),
{
    lemma_lists(r, ctx.store@.open_drafts());
}

/// The history is of the drafts that are sent, as many as the query asks for.
pub proof fn the_history_is_of_what_is_sent(ctx: Ctx, query: Option<&str>, r: Reply)
    requires
        call_ensures(history, (&ctx, query), r),
    ensures
        lists(r, ctx.store@.sent_drafts(limit_of(str_view(query)))),
{
    lemma_lists(r, ctx.store@.sent_drafts(limit_of(str_view(query))));
}

/// The queue is of the drafts that may go on what the query says of the node, and armed drafts
/// remember the work that it says is running.
pub open spec fn queued(before: StoreView, v: ReadingsView, r: Reply, after: StoreView) -> bool {
    &&& after == before.observe(v)
    &&& lists(r, after.releasable(v))
}

/// What asking for the queue at an instant does.
pub proof fn the_queue_at_an_instant<F: Fn(&str) -> Option<Percent>>(
    ctx: &mut Ctx,
    query: Option<&str>,
    percent_of: F,
    now: i64,
    r: Reply,
)
    requires
        old(ctx).store.wf(),
        call_ensures(queue_at::<F>, (ctx, query, percent_of, now), r),
    ensures
        exists|v: ReadingsView| #[trigger]
            readings_read(percent_of, str_view(query), now, v) && v.now_ms == now && queued(
                old(ctx).store@,
                v,
                r,
                final(ctx).store@,
            ),
{
    let v = choose|v: ReadingsView| #[trigger]
        readings_read(percent_of, str_view(query), now, v) && final(ctx).store@ == old(ctx).store@.observe(v) && r@ == crate::api::drafts_answer(
            old(ctx).store@.observe(v).releasable(v),
        );
    lemma_lists(r, old(ctx).store@.observe(v).releasable(v));
}

/// What asking for the queue does.
pub proof fn the_queue_now<F: Fn(&str) -> Option<Percent>>(
    ctx: &mut Ctx,
    query: Option<&str>,
    percent_of: F,
    r: Reply,
)
    requires
        old(ctx).store.wf(),
        call_ensures(queue::<F>, (ctx, query, percent_of), r),
    ensures
        exists|now: i64, v: ReadingsView|
            on_clock(now) && #[trigger] readings_read(percent_of, str_view(query), now, v) && queued(
                old(ctx).store@,
                v,
                r,
                final(ctx).store@,
            ),
{
    let (now, v) = choose|now: i64, v: ReadingsView|
        on_clock(now) && #[trigger] readings_read(percent_of, str_view(query), now, v) && final(ctx).store@ == old(ctx).store@.observe(v) && r@ == crate::api::drafts_answer(
            old(ctx).store@.observe(v).releasable(v),
        );
    lemma_lists(r, old(ctx).store@.observe(v).releasable(v));
}

/// What a save under that id does and answers.
pub open spec fn kept(
    before: StoreView,
    body: SaveBody,
    id: Seq<char>,
    now: i64,
    r: Reply,
    after: StoreView,
) -> bool {
    &&& alone(before, id, after)
    &&& if !has_text(body.text@) {
        &&& r.status == 200
        &&& r.body matches Body::Draft(None)
        &&& after.get(id) is None
    } else if before.get(id) is Some && before.get(id)->0.state is Sending {
        &&& complains(r@, 409, "draft "@ + id + " is being sent"@)
        &&& after == before
    } else {
        &&& after.get(id) is Some
        &&& shows(r@, after.get(id)->0)
        &&& ({
            let d = after.get(id)->0;
            &&& d.text == body.text@
            &&& reads(body.conversation_id, d.conversation_id)
            &&& reads(body.agent_id, d.agent_id)
            &&& reads(body.model, d.model)
            &&& reads(body.folder_path, d.folder_path)
            &&& d.updated_at == now
            &&& d.error is None
            &&& (body.trigger is None || body.trigger->0 is Manual) ==> d.state is Draft
            &&& (body.trigger is Some && !(body.trigger->0 is Manual)) ==> d.state is Armed
                && !d.seen_busy
            &&& (body.trigger matches Some(t) && writable(t@)) ==> d.trigger == body.trigger->0@
            &&& before.get(id) is None ==> d.created_at == now && (body.source is None
                ==> d.source is Manual) && (body.source matches Some(n) ==> d.source
                == Source::named(n@))
            &&& before.get(id) matches Some(e) ==> d.created_at == e.created_at && d.source
                == e.source
        })
    }
}

/// What a save does and answers, from the state before and after.
proof fn lemma_kept(
    s: StoreView,
    body: SaveBody,
    id: Seq<char>,
    now: i64,
    r: Reply,
    t: StoreView,
)
    requires
        s.wf(),
        (t, r@) == crate::api::save_result(s, body, id, now),
    ensures
        kept(s, body, id, now, r, t),
{
    a_save_is_answered(s, body, id, now);
    let change = Change::Save { draft: body.draft(id, now) };
    assert forall|other: Seq<char>| other != id implies #[trigger] t.get(other) == s.get(other) by {
        other_drafts_are_left_alone(s, change, now, id, other);
    }
    if has_text(body.text@) && !(s.get(id) is Some && s.get(id)->0.state is Sending) {
        a_save_keeps_what_its_body_says(s, body, id, now);
    }
}

/// What `POST /drafts` does: it goes under the id that is asked for where that is one.
pub proof fn a_posted_save(ctx: &mut Ctx, body: SaveBody, r: Reply)
    requires
        old(ctx).store.wf(),
        call_ensures(save, (ctx, body), r),
    ensures
        exists|id: Seq<char>, now: i64|
            on_clock(now) && valid_id(id) && (body.id is Some && valid_id(body.id->0@) ==> id
                == body.id->0@) && #[trigger] kept(
                old(ctx).store@,
                body,
                id,
                now,
                r,
                final(ctx).store@,
            ),
        final(ctx).store.wf(),
{
    let (id, now) = choose|id: Seq<char>, now: i64|
        save_id(opt_view(body.id), id) && on_clock(now) && (final(ctx).store@, r@)
            == #[trigger] crate::api::save_result(old(ctx).store@, body, id, now);
    crate::laws::answers::a_save_goes_under_a_valid_id(opt_view(body.id), id);
    lemma_kept(old(ctx).store@, body, id, now, r, final(ctx).store@);
}

/// What `PATCH /drafts/:id` does: it is refused where the id is none.
pub proof fn a_patched_save(ctx: &mut Ctx, id: &str, body: SaveBody, r: Reply)
    requires
        old(ctx).store.wf(),
        call_ensures(save_one, (ctx, id, body), r),
    ensures
        !valid_id(id@) ==> complains(r@, 400, "invalid draft id"@) && final(ctx).store@ == old(ctx).store@,
        valid_id(id@) ==> exists|now: i64|
            on_clock(now) && #[trigger] kept(
                old(ctx).store@,
                body,
                id@,
                now,
                r,
                final(ctx).store@,
            ),
        final(ctx).store.wf(),
{
    if valid_id(id@) {
        let now = choose|now: i64|
            on_clock(now) && (final(ctx).store@, r@) == #[trigger] crate::api::save_result(
                old(ctx).store@,
                body,
                id@,
                now,
            );
        lemma_kept(old(ctx).store@, body, id@, now, r, final(ctx).store@);
    }
}

/// A draft is shown where there is one, whole.
pub proof fn a_draft_is_shown_where_there_is_one(ctx: Ctx, id: &str, r: Reply)
    requires
        ctx.store.wf(),
        call_ensures(get_one, (&ctx, id), r),
    ensures
        ctx.store@.get(id@) matches Some(d) ==> shows(r@, d),
        ctx.store@.get(id@) is None ==> complains(r@, 404, "no such draft"@),
{
}

/// A draft that is saved is the one that is then shown.
pub proof fn what_is_saved_is_shown(
    ctx: &mut Ctx,
    id: &str,
    body: SaveBody,
    r: Reply,
    later: Ctx,
    shown: Reply,
)
    requires
        old(ctx).store.wf(),
        valid_id(id@),
        has_text(body.text@),
        old(ctx).store@.get(id@) matches Some(e) ==> !(e.state is Sending),
        call_ensures(save_one, (ctx, id, body), r),
        later.store@ == final(ctx).store@,
        call_ensures(get_one, (&later, id), shown),
    ensures
        shown@ == r@,
        shown.status == 200,
        shown.body matches Body::Draft(Some(row)) && {
            &&& row.draft.text@ == body.text@
            &&& reads(body.conversation_id, row.draft@.conversation_id)
            &&& reads(body.agent_id, row.draft@.agent_id)
            &&& reads(body.model, row.draft@.model)
            &&& reads(body.folder_path, row.draft@.folder_path)
        },
{
    let now = choose|now: i64|
        on_clock(now) && (final(ctx).store@, r@) == #[trigger] crate::api::save_result(
            old(ctx).store@,
            body,
            id@,
            now,
        );
    lemma_kept(old(ctx).store@, body, id@, now, r, final(ctx).store@);
    let d = final(ctx).store@.get(id@)->0;
    assert(shown@ == crate::api::draft_answer(d));
    assert(r@ == crate::api::save_answer(
        old(ctx).store@.upsert(body.draft(id@, now), now).1,
    ));
    crate::laws::changes::a_save_is_read_back(old(ctx).store@, body.draft(id@, now), now);
    assert(r@ == crate::api::draft_answer(d));
}

/// A discarded draft is gone, and one that was not there is not found.
pub proof fn a_discarded_draft_is_gone(ctx: &mut Ctx, id: &str, r: Reply)
    requires
        old(ctx).store.wf(),
        call_ensures(delete_one, (ctx, id), r),
    ensures
        old(ctx).store@.get(id@) is Some ==> r.status == 200 && r.body is Deleted,
        old(ctx).store@.get(id@) is None ==> complains(r@, 404, "no such draft"@),
        final(ctx).store@.get(id@) is None,
        alone(old(ctx).store@, id@, final(ctx).store@),
        final(ctx).store.wf(),
{
    deleted_is_gone(old(ctx).store@, id@);
}

/// Wiping leaves no draft and answers how many there were.
pub proof fn wiping_answers_how_many_there_were(ctx: &mut Ctx, r: Reply)
    requires
        old(ctx).store.wf(),
        call_ensures(delete_all, (ctx,), r),
    ensures
        r.status == 200,
        r.body matches Body::DeletedAll(n) && n == old(ctx).store@.rows.len(),
        final(ctx).store@.rows.len() == 0,
        final(ctx).store@.settings == old(ctx).store@.settings,
        final(ctx).store.wf(),
{
}

/// What giving a draft a condition does and answers.
pub open spec fn watching(
    before: StoreView,
    id: Seq<char>,
    trigger: TriggerView,
    now: i64,
    r: Reply,
    after: StoreView,
) -> bool {
    &&& alone(before, id, after)
    &&& match before.get(id) {
        None => complains(r@, 404, "no such draft"@) && after == before,
        Some(e) => if e.state is Sending {
            complains(r@, 409, "draft "@ + id + " is being sent"@) && after == before
        } else {
            &&& after.get(id) is Some
            &&& shows(r@, after.get(id)->0)
            &&& ({
                let d = after.get(id)->0;
                &&& same_message(d, e)
                &&& d.conversation_id == e.conversation_id
                &&& d.claimed_at == e.claimed_at
                &&& d.sent_at == e.sent_at
                &&& d.updated_at == now
                &&& d.error is None
                &&& !d.seen_busy
                &&& trigger is Manual <==> d.state is Draft
                &&& !(trigger is Manual) <==> d.state is Armed
                &&& writable(trigger) ==> d.trigger == trigger
            })
        },
    }
}

/// What a condition does and is answered, from the state before and after.
proof fn lemma_watching(
    s: StoreView,
    id: Seq<char>,
    trigger: TriggerView,
    now: i64,
    r: Reply,
    t: StoreView,
)
    requires
        s.wf(),
        (t, r@) == crate::api::trigger_result(s, id, trigger, now),
    ensures
        watching(s, id, trigger, now, r, t),
{
    a_condition_is_answered(s, id, trigger, now);
    assert forall|other: Seq<char>| other != id implies #[trigger] t.get(other) == s.get(other) by {
        other_drafts_are_left_alone(s, Change::SetTrigger { id, trigger }, now, id, other);
    }
    if s.get(id) is Some && !(s.get(id)->0.state is Sending) {
        a_condition_changes_nothing_else(s, id, trigger, now);
    }
}

/// What arming does.
pub proof fn arming_gives_the_condition(ctx: &mut Ctx, id: &str, trigger: Trigger, r: Reply)
    requires
        old(ctx).store.wf(),
        call_ensures(arm, (ctx, id, trigger), r),
    ensures
        exists|now: i64|
            on_clock(now) && #[trigger] watching(
                old(ctx).store@,
                id@,
                trigger@,
                now,
                r,
                final(ctx).store@,
            ),
        final(ctx).store.wf(),
{
    let now = choose|now: i64|
        on_clock(now) && (final(ctx).store@, r@) == #[trigger] crate::api::trigger_result(
            old(ctx).store@,
            id@,
            trigger@,
            now,
        );
    lemma_watching(old(ctx).store@, id@, trigger@, now, r, final(ctx).store@);
}

/// What disarming does.
pub proof fn disarming_takes_the_condition(ctx: &mut Ctx, id: &str, r: Reply)
    requires
        old(ctx).store.wf(),
        call_ensures(disarm, (ctx, id), r),
    ensures
        exists|now: i64|
            on_clock(now) && #[trigger] watching(
                old(ctx).store@,
                id@,
                TriggerView::Manual,
                now,
                r,
                final(ctx).store@,
            ),
        final(ctx).store.wf(),
{
    let now = choose|now: i64|
        on_clock(now) && (final(ctx).store@, r@) == #[trigger] crate::api::trigger_result(
            old(ctx).store@,
            id@,
            TriggerView::Manual,
            now,
        );
    lemma_watching(old(ctx).store@, id@, TriggerView::Manual, now, r, final(ctx).store@);
}

/// What a claim does and answers.
pub open spec fn reserved(
    before: StoreView,
    id: Seq<char>,
    now: i64,
    r: Reply,
    after: StoreView,
) -> bool {
    &&& alone(before, id, after)
    &&& r.status == 200 || (complains(r@, 409, "draft is already being sent"@) && after == before)
    &&& r.status == 200 <==> {
        &&& before.get(id) is Some
        &&& !before.unknown_states.dom().contains(id)
        &&& before.get(id)->0.state is Draft || before.get(id)->0.state is Armed || (before.get(
            id,
        )->0.state is Sending && before.get(id)->0.claimed_at is Some && before.get(
            id,
        )->0.claimed_at->0 + 120_000 < now)
    }
    &&& r.status == 200 ==> after.get(id) is Some && shows(r@, after.get(id)->0) && {
        let d = after.get(id)->0;
        let e = before.get(id)->0;
        &&& d.state is Sending
        &&& d.claimed_at == Some(now)
        &&& same_message(d, e)
        &&& d.conversation_id == e.conversation_id
        &&& d.trigger == e.trigger
    }
}

/// What a request to claim a draft does.
pub proof fn claiming_reserves_the_draft(ctx: &mut Ctx, id: &str, r: Reply)
    requires
        old(ctx).store.wf(),
        call_ensures(claim, (ctx, id), r),
    ensures
        exists|now: i64|
            on_clock(now) && #[trigger] reserved(
                old(ctx).store@,
                id@,
                now,
                r,
                final(ctx).store@,
            ),
        final(ctx).store.wf(),
{
    let s = old(ctx).store@;
    let t = final(ctx).store@;
    let now = choose|now: i64|
        on_clock(now) && (t, r@) == #[trigger] crate::api::claim_result(s, id@, now);
    a_claim_is_answered(s, id@, now);
    a_claim_is_won_exactly_where_the_draft_is_free(s, id@, now);
    assert forall|other: Seq<char>| other != id@ implies #[trigger] t.get(other) == s.get(other) by {
        other_drafts_are_left_alone(s, Change::Claim { id: id@ }, now, id@, other);
    }
    if s.claim(id@, now).1 is Some {
        a_claim_changes_nothing_else(s, id@, now);
    }
    assert(reserved(s, id@, now, r, t));
}

/// What the report of an outcome does and answers: not found where there is no draft, else the
/// draft, with its message as it was.
pub open spec fn reported_on(
    before: StoreView,
    id: Seq<char>,
    now: i64,
    r: Reply,
    after: StoreView,
) -> bool {
    &&& alone(before, id, after)
    &&& before.get(id) is None ==> complains(r@, 404, "no such draft"@) && after == before
    &&& before.get(id) matches Some(e) ==> after.get(id) is Some && shows(r@, after.get(id)->0)
        && same_message(after.get(id)->0, e) && after.get(id)->0.updated_at == now && after.get(
        id,
    )->0.claimed_at is None && after.get(id)->0.trigger == e.trigger
}

/// What the report of a send does.
pub proof fn a_send_is_filed(ctx: &mut Ctx, id: &str, conversation_id: Option<&str>, r: Reply)
    requires
        old(ctx).store.wf(),
        call_ensures(sent, (ctx, id, conversation_id), r),
    ensures
        exists|now: i64|
            on_clock(now) && #[trigger] reported_on(
                old(ctx).store@,
                id@,
                now,
                r,
                final(ctx).store@,
            ) && (old(ctx).store@.get(id@) matches Some(e) ==> {
                let d = final(ctx).store@.get(id@)->0;
                &&& d.state is Sent
                &&& d.sent_at == Some(now)
                &&& d.error is None
                &&& conversation_id matches Some(c) ==> d.conversation_id == Some(c@)
                &&& conversation_id is None ==> d.conversation_id == e.conversation_id
            }),
        final(ctx).store.wf(),
{
    let s = old(ctx).store@;
    let t = final(ctx).store@;
    let c = str_view(conversation_id);
    let now = choose|now: i64|
        on_clock(now) && (t, r@) == #[trigger] crate::api::sent_result(s, id@, c, now);
    a_report_of_a_send_is_answered(s, id@, c, now);
    a_reported_send_changes_nothing_else(s, id@, c, now);
    let change = Change::Sent { id: id@, conversation_id: c };
    assert forall|other: Seq<char>| other != id@ implies #[trigger] t.get(other) == s.get(other) by {
        other_drafts_are_left_alone(s, change, now, id@, other);
    }
    assert(reported_on(s, id@, now, r, t));
}

/// What the report of a failure does.
pub proof fn a_failure_is_filed(ctx: &mut Ctx, id: &str, error: Option<&str>, r: Reply)
    requires
        old(ctx).store.wf(),
        call_ensures(failed, (ctx, id, error), r),
    ensures
        exists|now: i64|
            on_clock(now) && #[trigger] reported_on(
                old(ctx).store@,
                id@,
                now,
                r,
                final(ctx).store@,
            ) && (old(ctx).store@.get(id@) matches Some(e) ==> {
                let d = final(ctx).store@.get(id@)->0;
                &&& d.state is Failed
                &&& d.conversation_id == e.conversation_id
                &&& d.sent_at == e.sent_at
                &&& error matches Some(why) ==> d.error == Some(why@)
                &&& error is None ==> d.error == Some("Send failed"@)
            }),
        final(ctx).store.wf(),
{
    let s = old(ctx).store@;
    let t = final(ctx).store@;
    let why = str_view(error);
    let reason = match why {
        Some(e) => e,
        None => "Send failed"@,
    };
    let now = choose|now: i64|
        on_clock(now) && (t, r@) == #[trigger] crate::api::failed_result(s, id@, why, now);
    a_report_of_a_failure_is_answered(s, id@, why, now);
    a_reported_failure_changes_nothing_else(s, id@, reason, now);
    let change = Change::Failed { id: id@, error: reason };
    assert forall|other: Seq<char>| other != id@ implies #[trigger] t.get(other) == s.get(other) by {
        other_drafts_are_left_alone(s, change, now, id@, other);
    }
    assert(reported_on(s, id@, now, r, t));
}

/// Settings that are put are answered and then read, with a ceiling of at least one and else as
/// they were given; the drafts stay.
pub proof fn settings_that_are_put_are_read(
    ctx: &mut Ctx,
    body: Settings,
    r: Reply,
    later: Ctx,
    shown: Reply,
)
    requires
        old(ctx).store.wf(),
        call_ensures(put_settings, (ctx, body), r),
        later.store@ == final(ctx).store@,
        call_ensures(get_settings, (&later,), shown),
    ensures
        r.status == 200,
        shown.status == 200,
        r.body matches Body::Settings(s) && {
            &&& s.max_concurrent == (if body.max_concurrent < 1 {
                1
            } else {
                body.max_concurrent
            })
            &&& s.autosave_enabled == body.autosave_enabled
            &&& s.autosave_min_chars == body.autosave_min_chars
            &&& s.auto_queue_enabled == body.auto_queue_enabled
            &&& shown.body matches Body::Settings(read) && read == s
        },
        final(ctx).store@.rows == old(ctx).store@.rows,
        final(ctx).store@.unknown_states == old(ctx).store@.unknown_states,
        final(ctx).store.wf(),
{
    settings_are_answered(body);
}

} // verus!
