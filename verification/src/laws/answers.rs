//! What a caller is answered, and who is.

use vstd::prelude::*;

use crate::api::{
    claim_result, drafts_answer, failed_result, floored, one_answer, save_id, save_result,
    sent_result, settings_answer, trigger_result, valid_id, Body, BodyView, Reply,
    ReplyView, SaveBody,
};
use crate::auth::{admitted, configured, presented};
use crate::laws::fields::{
    a_blank_save_deletes, a_claim_changes_nothing_else, a_condition_changes_nothing_else,
    a_new_draft_is_kept_whole, a_reported_failure_changes_nothing_else,
    a_reported_send_changes_nothing_else, an_edit_takes_what_is_given, has_text,
};
use crate::models::{preview_line, DraftView, Settings, TriggerView};
use crate::store::StoreView;

verus! {

/// What is meant by an answer is its status and all that its body says.
pub proof fn an_answer_is_seen_whole(r: Reply)
    ensures
        r@.status == r.status,
        r.body matches Body::Draft(Some(row)) ==> r@.body == BodyView::Draft(Some(row@)),
        r.body matches Body::Draft(None) ==> r@.body == BodyView::Draft(None),
        r.body is Deleted <==> r@.body is Deleted,
        r.body matches Body::DeletedAll(n) ==> r@.body == BodyView::DeletedAll(n as nat),
        r.body matches Body::Settings(s) ==> r@.body == BodyView::Settings(s),
        r.body matches Body::Error(e) ==> r@.body == BodyView::Error(e@),
        r.body matches Body::Drafts(rows) ==> r@.body is Drafts && r@.body->Drafts_0.len()
            == rows@.len() && forall|i: int|
            0 <= i < rows@.len() ==> #[trigger] r@.body->Drafts_0[i] == rows@[i]@,
{
}

/// The answer shows that draft, whole, with its preview.
pub open spec fn shows(r: ReplyView, d: DraftView) -> bool {
    &&& r.status == 200
    &&& r.body matches BodyView::Draft(Some(row)) && row.draft == d && row.preview == preview_line(
        d.text,
    )
}

/// The answer is that error.
pub open spec fn complains(r: ReplyView, status: u16, message: Seq<char>) -> bool {
    r.status == status && (r.body matches BodyView::Error(e) && e == message)
}

/// A list is answered with a row for each draft, in their order, each showing its draft whole.
pub proof fn a_list_shows_every_draft(drafts: Seq<DraftView>)
    ensures
        drafts_answer(drafts).status == 200,
        drafts_answer(drafts).body matches BodyView::Drafts(rows) && rows.len() == drafts.len()
            && forall|i: int|
            0 <= i < rows.len() ==> (#[trigger] rows[i]).draft == drafts[i] && rows[i].preview
                == preview_line(drafts[i].text),
{
}

/// One draft is answered whole, and one that is not there with not found.
pub proof fn one_draft_is_answered(d: Option<DraftView>)
    ensures
        d matches Some(d) ==> shows(one_answer(Some(d)), d),
        d is None ==> complains(one_answer(d), 404, "no such draft"@),
{
}

/// A save is answered with the draft that is then found, with none where its text was blank, and
/// with a conflict, and nothing changed, where the draft is being sent.
pub proof fn a_save_is_answered(s: StoreView, body: SaveBody, id: Seq<char>, now: i64)
    requires
        s.wf(),
    ensures
        ({
            let (t, r) = save_result(s, body, id, now);
            &&& !has_text(body.text@) ==> r.status == 200 && (r.body matches BodyView::Draft(d)
                && d is None) && t.get(id) is None
            &&& has_text(body.text@) && (s.get(id) matches Some(e) && e.state is Sending)
                ==> complains(r, 409, "draft "@ + id + " is being sent"@) && t == s
            &&& has_text(body.text@) && !(s.get(id) matches Some(e) && e.state is Sending)
                ==> t.get(id) is Some && shows(r, t.get(id)->0)
        }),
{
    let draft = body.draft(id, now);
    if !has_text(body.text@) {
        a_blank_save_deletes(s, draft, now);
    } else if s.get(id) is None {
        a_new_draft_is_kept_whole(s, draft, now);
    } else if !(s.get(id)->0.state is Sending) {
        an_edit_takes_what_is_given(s, draft, now);
    } else {
        let i = choose|i: int|
            0 <= i < body.text@.len() && !crate::text::is_space(#[trigger] body.text@[i]);
        assert(!crate::text::is_space(draft.text[i]));
    }
}

/// A condition is answered with the draft that is then found, with not found where there is
/// none, and with a conflict where it is being sent; in these two nothing changes.
pub proof fn a_condition_is_answered(s: StoreView, id: Seq<char>, trigger: TriggerView, now: i64)
    requires
        s.wf(),
    ensures
        ({
            let (t, r) = trigger_result(s, id, trigger, now);
            &&& s.get(id) is None ==> complains(r, 404, "no such draft"@) && t == s
            &&& (s.get(id) matches Some(e) && e.state is Sending) ==> complains(
                r,
                409,
                "draft "@ + id + " is being sent"@,
            ) && t == s
            &&& (s.get(id) matches Some(e) && !(e.state is Sending)) ==> t.get(id) is Some && shows(
                r,
                t.get(id)->0,
            )
        }),
{
    if s.get(id) is Some && !(s.get(id)->0.state is Sending) {
        a_condition_changes_nothing_else(s, id, trigger, now);
    }
}

/// A claim is answered with the draft that is then found being sent, or with a conflict, and
/// nothing changed.
pub proof fn a_claim_is_answered(s: StoreView, id: Seq<char>, now: i64)
    requires
        s.wf(),
    ensures
        ({
            let (t, r) = claim_result(s, id, now);
            ||| t.get(id) is Some && t.get(id)->0.state is Sending && t.get(id)->0.claimed_at
                == Some(now) && shows(r, t.get(id)->0)
            ||| complains(r, 409, "draft is already being sent"@) && t == s
        }),
        claim_result(s, id, now).1.status == 200 <==> s.claim(id, now).1 is Some,
{
    if s.claim(id, now).1 is Some {
        a_claim_changes_nothing_else(s, id, now);
    }
}

/// The report of a send is answered with the draft that is then found sent, or with not found.
pub proof fn a_report_of_a_send_is_answered(
    s: StoreView,
    id: Seq<char>,
    conversation_id: Option<Seq<char>>,
    now: i64,
)
    requires
        s.wf(),
    ensures
        ({
            let (t, r) = sent_result(s, id, conversation_id, now);
            &&& s.get(id) is None ==> complains(r, 404, "no such draft"@) && t == s
            &&& s.get(id) is Some ==> t.get(id) is Some && t.get(id)->0.state is Sent && shows(
                r,
                t.get(id)->0,
            )
        }),
{
    a_reported_send_changes_nothing_else(s, id, conversation_id, now);
}

/// The report of a failure is answered with the draft that is then found failed, its row showing
/// the reason that was given or that the send failed, or with not found.
pub proof fn a_report_of_a_failure_is_answered(
    s: StoreView,
    id: Seq<char>,
    error: Option<Seq<char>>,
    now: i64,
)
    requires
        s.wf(),
    ensures
        ({
            let (t, r) = failed_result(s, id, error, now);
            &&& s.get(id) is None ==> complains(r, 404, "no such draft"@) && t == s
            &&& s.get(id) is Some ==> t.get(id) is Some && {
                let d = t.get(id)->0;
                &&& shows(r, d)
                &&& d.state is Failed
                &&& error is Some ==> d.error == error && d.row().waiting_for == error->0
                &&& error is None ==> d.error == Some("Send failed"@) && d.row().waiting_for
                    == "Send failed"@
            }
        }),
{
    let reason = match error {
        Some(e) => e,
        None => "Send failed"@,
    };
    a_reported_failure_changes_nothing_else(s, id, reason, now);
}

/// Settings are answered as they are kept. Of settings that are put only a ceiling of zero is
/// changed, and that to one.
pub proof fn settings_are_answered(s: Settings)
    ensures
        settings_answer(s).status == 200,
        settings_answer(s).body matches BodyView::Settings(shown) && shown == s,
        floored(s).autosave_enabled == s.autosave_enabled,
        floored(s).autosave_min_chars == s.autosave_min_chars,
        floored(s).auto_queue_enabled == s.auto_queue_enabled,
        s.max_concurrent >= 1 ==> floored(s).max_concurrent == s.max_concurrent,
        s.max_concurrent == 0 ==> floored(s).max_concurrent == 1,
{
}

/// Where no settings are kept, composer text of four characters or more is kept, nothing is
/// queued unasked, and three runs may go at once; where some are, they count.
pub proof fn settings_default(s: StoreView)
    ensures
        s.settings matches Some(kept) ==> s.current_settings() == kept,
        s.settings is None ==> {
            &&& s.current_settings().autosave_enabled
            &&& s.current_settings().autosave_min_chars == 4
            &&& !s.current_settings().auto_queue_enabled
            &&& s.current_settings().max_concurrent == 3
        },
{
}

/// The character is a letter, a digit, a hyphen or an underscore.
pub open spec fn name_char(c: char) -> bool {
    ||| 'A' <= c <= 'Z'
    ||| 'a' <= c <= 'z'
    ||| '0' <= c <= '9'
    ||| c == '_'
    ||| c == '-'
}

/// An id is one to sixty-four letters, digits, hyphens and underscores.
pub proof fn an_id_is_a_short_name(id: Seq<char>)
    ensures
        valid_id(id) <==> 1 <= id.len() <= 64 && (forall|i: int|
            0 <= i < id.len() ==> name_char(#[trigger] id[i])),
{
    if 1 <= id.len() <= 64 && (forall|i: int| 0 <= i < id.len() ==> name_char(#[trigger] id[i])) {
        assert forall|i: int| 0 <= i < id.len() implies crate::api::id_char(#[trigger] id[i]) by {
            assert(name_char(id[i]));
        }
    }
    if valid_id(id) {
        assert forall|i: int| 0 <= i < id.len() implies name_char(#[trigger] id[i]) by {
            assert(crate::api::id_char(id[i]));
        }
    }
}

/// A save goes under the id that is asked for where that is one, and under a new one that is
/// valid where it is not.
pub proof fn a_save_goes_under_a_valid_id(asked: Option<Seq<char>>, id: Seq<char>)
    requires
        save_id(asked, id),
    ensures
        valid_id(id),
        (asked is Some && valid_id(asked->0)) ==> id == asked->0,
        !(asked is Some && valid_id(asked->0)) ==> id.len() == 36 && "dft_"@.is_prefix_of(id),
{
    if !(asked is Some && valid_id(asked->0)) {
        crate::api::new_ids_are_valid(id);
        let digits = choose|digits: Seq<char>|
            #[trigger] crate::api::uuid_digits(digits) && id == "dft_"@ + digits;
        reveal_strlit("dft_");
        assert(id.take(4) =~= "dft_"@);
    }
}

/// A token is presented exactly where it stands behind the word Bearer and one space.
pub proof fn a_token_stands_behind_its_scheme(header: Seq<char>, token: Seq<char>)
    ensures
        presented(Some(header)) == Some(token) <==> header == "Bearer "@ + token,
        presented(None) is None,
{
    let scheme = "Bearer "@;
    if header == scheme + token {
        assert(header.take(scheme.len() as int) =~= scheme);
        assert(scheme.is_prefix_of(header));
        assert(header.skip(scheme.len() as int) =~= token);
    }
    if presented(Some(header)) == Some(token) {
        assert(header =~= header.take(scheme.len() as int) + header.skip(scheme.len() as int));
        assert(header.take(scheme.len() as int) =~= scheme);
    }
}

/// A request is let in exactly where it presents the token that is configured, which is one
/// that is not empty.
pub proof fn only_who_knows_the_token_is_let_in(header: Option<Seq<char>>, raw: Option<Seq<char>>)
    ensures
        admitted(presented(header), configured(raw)) <==> header is Some && raw is Some
            && raw->0.len() > 0 && header->0 == "Bearer "@ + raw->0,
{
    if header is Some && raw is Some {
        a_token_stands_behind_its_scheme(header->0, raw->0);
    }
}

} // verus!
