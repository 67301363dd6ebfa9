//! What holds of the outbox as a whole, whatever happens to it and in whatever order.

use vstd::prelude::*;

use crate::api::{draft_answer, save_result, SaveBody};
use crate::models::{DraftView, ReadingsView, Settings, State, TriggerView};
use crate::store::{
    holds, lemma_latch, lemma_put, lemma_without, place, StoreView, CLAIM_TIMEOUT_MS,
};
use crate::text::is_blank;

verus! {

/// Something that happens to an outbox.
pub enum Change {
    Save { draft: DraftView },
    SetTrigger { id: Seq<char>, trigger: TriggerView },
    Claim { id: Seq<char> },
    Sent { id: Seq<char>, conversation_id: Option<Seq<char>> },
    Failed { id: Seq<char>, error: Seq<char> },
    Delete { id: Seq<char> },
    DeleteAll,
    Observe { readings: ReadingsView },
    Configure { settings: Settings },
}

impl StoreView {
    /// The outbox after something happened to it at the instant `now`.
    pub open spec fn after(self, change: Change, now: i64) -> StoreView {
        match change {
            Change::Save { draft } => self.upsert(draft, now).0,
            Change::SetTrigger { id, trigger } => self.set_trigger(id, trigger, now).0,
            Change::Claim { id } => self.claim(id, now).0,
            Change::Sent { id, conversation_id } => self.mark_sent(id, conversation_id, now).0,
            Change::Failed { id, error } => self.mark_failed(id, error, now).0,
            Change::Delete { id } => self.without(id),
            Change::DeleteAll => StoreView::nothing(self.settings),
            Change::Observe { readings } => self.observe(readings),
            Change::Configure { settings } => StoreView { settings: Some(settings), ..self },
        }
    }

    /// The outbox after all of that happened to it, each at its instant.
    pub open spec fn after_all(self, changes: Seq<(Change, i64)>) -> StoreView
        decreases changes.len(),
    {
        if changes.len() == 0 {
            self
        } else {
            self.after_all(changes.drop_last()).after(changes.last().0, changes.last().1)
        }
    }
}

/// A draft that was put is found, and every other draft is found as before.
pub proof fn put_is_read_back(s: StoreView, d: DraftView)
    requires
        s.wf(),
    ensures
        s.put(d).wf(),
        s.put(d).get(d.id) == Some(d),
        forall|id: Seq<char>| id != d.id ==> #[trigger] s.put(d).get(id) == s.get(id),
{
    lemma_put(s, d);
}

/// A draft that was taken away is not found, and every other draft is found as before.
pub proof fn deleted_is_gone(s: StoreView, id: Seq<char>)
    requires
        s.wf(),
    ensures
        s.without(id).wf(),
        s.without(id).get(id) is None,
        forall|other: Seq<char>| other != id ==> #[trigger] s.without(id).get(other) == s.get(other),
{
    lemma_without(s, id);
}

/// A draft that is found has the id that was asked for.
pub proof fn found_under_its_id(s: StoreView, id: Seq<char>)
    ensures
        s.get(id) matches Some(d) ==> d.id == id,
{
    if holds(s.rows, id) {
        assert(s.rows[place(s.rows, id)].id == id);
    }
}

/// What was seen of the node changes nothing but the latch of armed drafts.
pub proof fn observing_only_latches(s: StoreView, r: ReadingsView)
    requires
        s.wf(),
    ensures
        s.observe(r).wf(),
        s.observe(r).settings == s.settings,
        forall|id: Seq<char>|
            #[trigger] s.observe(r).get(id) == (match s.get(id) {
                Some(d) => Some(
                    DraftView {
                        seen_busy: d.seen_busy || (d.state is Armed && r.running is Some
                            && r.running->0 > 0),
                        ..d
                    },
                ),
                None => None,
            }),
{
    lemma_latch(s);
}

/// Whatever happens to the outbox, it stays well-formed: no two drafts have the same id.
pub proof fn ids_stay_distinct(s: StoreView, change: Change, now: i64)
    requires
        s.wf(),
    ensures
        s.after(change, now).wf(),
{
    match change {
        Change::Save { draft } => {
            lemma_without(s, draft.id);
            lemma_put(s, draft.first_saved(now));
            match s.get(draft.id) {
                Some(e) => {
                    lemma_put(s, draft.saved_over(e, now));
                },
                None => {},
            }
        },
        Change::SetTrigger { id, trigger } => {
            match s.get(id) {
                Some(e) => {
                    lemma_put(s, e.rearmed(trigger, now));
                },
                None => {},
            }
        },
        Change::Claim { id } => {
            match s.get(id) {
                Some(e) => {
                    lemma_put(s, e.claimed(now));
                },
                None => {},
            }
        },
        Change::Sent { id, conversation_id } => {
            match s.get(id) {
                Some(e) => {
                    lemma_put(s, e.sent(conversation_id, now));
                },
                None => {},
            }
        },
        Change::Failed { id, error } => {
            match s.get(id) {
                Some(e) => {
                    lemma_put(s, e.failed(error, now));
                },
                None => {},
            }
        },
        Change::Delete { id } => {
            lemma_without(s, id);
        },
        Change::DeleteAll => {},
        Change::Observe { readings } => {
            observing_only_latches(s, readings);
        },
        Change::Configure { settings } => {},
    }
}

/// However much happens to the outbox, no two drafts have the same id.
pub proof fn ids_stay_distinct_throughout(s: StoreView, changes: Seq<(Change, i64)>)
    requires
        s.wf(),
    ensures
        s.after_all(changes).wf(),
    decreases changes.len(),
{
    if changes.len() > 0 {
        ids_stay_distinct_throughout(s, changes.drop_last());
        ids_stay_distinct(s.after_all(changes.drop_last()), changes.last().0, changes.last().1);
    }
}

/// The change is about the draft with that id alone.
pub open spec fn is_about(change: Change, id: Seq<char>) -> bool {
    match change {
        Change::Save { draft } => draft.id == id,
        Change::SetTrigger { id: i, .. } => i == id,
        Change::Claim { id: i } => i == id,
        Change::Sent { id: i, .. } => i == id,
        Change::Failed { id: i, .. } => i == id,
        Change::Delete { id: i } => i == id,
        Change::DeleteAll | Change::Observe { .. } | Change::Configure { .. } => false,
    }
}

/// What happens to one draft leaves every other draft, and the settings, as they were.
pub proof fn other_drafts_are_left_alone(
    s: StoreView,
    change: Change,
    now: i64,
    id: Seq<char>,
    other: Seq<char>,
)
    requires
        s.wf(),
        is_about(change, id),
        other != id,
    ensures
        s.after(change, now).get(other) == s.get(other),
        s.after(change, now).settings == s.settings,
{
    found_under_its_id(s, id);
    match change {
        Change::Save { draft } => {
            deleted_is_gone(s, id);
            put_is_read_back(s, draft.first_saved(now));
            match s.get(id) {
                Some(e) => {
                    put_is_read_back(s, draft.saved_over(e, now));
                },
                None => {},
            }
        },
        Change::SetTrigger { id: i, trigger } => {
            match s.get(id) {
                Some(e) => {
                    put_is_read_back(s, e.rearmed(trigger, now));
                },
                None => {},
            }
        },
        Change::Claim { id: i } => {
            match s.get(id) {
                Some(e) => {
                    put_is_read_back(s, e.claimed(now));
                },
                None => {},
            }
        },
        Change::Sent { id: i, conversation_id } => {
            match s.get(id) {
                Some(e) => {
                    put_is_read_back(s, e.sent(conversation_id, now));
                },
                None => {},
            }
        },
        Change::Failed { id: i, error } => {
            match s.get(id) {
                Some(e) => {
                    put_is_read_back(s, e.failed(error, now));
                },
                None => {},
            }
        },
        Change::Delete { id: i } => {
            deleted_is_gone(s, id);
        },
        _ => {},
    }
}

/// A draft that was saved is found as the save answered it, under its id and with its text;
/// a save of a blank text leaves none.
pub proof fn a_save_is_read_back(s: StoreView, draft: DraftView, now: i64)
    requires
        s.wf(),
    ensures
        match s.upsert(draft, now) {
            (t, Ok(saved)) => {
                &&& t.get(draft.id) == saved
                &&& saved is None <==> is_blank(draft.text)
                &&& saved matches Some(d) ==> {
                    &&& d.id == draft.id
                    &&& d.text == draft.text
                    &&& d.conversation_id == draft.conversation_id
                    &&& d.agent_id == draft.agent_id
                    &&& d.model == draft.model
                    &&& d.folder_path == draft.folder_path
                    &&& d.trigger == draft.trigger.kept()
                    &&& d.updated_at == now
                }
            },
            (t, Err(id)) => t == s && id == draft.id,
        },
{
    deleted_is_gone(s, draft.id);
    put_is_read_back(s, draft.first_saved(now));
    match s.get(draft.id) {
        Some(e) => {
            put_is_read_back(s, draft.saved_over(e, now));
        },
        None => {},
    }
}

/// Saving under an id that is there edits in place: there are as many drafts as before, and
/// the draft keeps when it was made and where it came from.
pub proof fn an_edit_stays_in_place(s: StoreView, draft: DraftView, now: i64)
    requires
        s.wf(),
        s.get(draft.id) is Some,
        !is_blank(draft.text),
    ensures
        s.upsert(draft, now).0.rows.len() == s.rows.len(),
        s.upsert(draft, now).0.get(draft.id) matches Some(d) && d.created_at == s.get(
            draft.id,
        )->0.created_at && d.source == s.get(draft.id)->0.source,
{
    let e = s.get(draft.id)->0;
    put_is_read_back(s, draft.saved_over(e, now));
}

/// A save with a condition arms the draft immediately, whatever it was before, unless the text
/// is blank or the draft is being sent: it is answered and found armed, with no error and
/// watching afresh.
pub proof fn a_save_with_a_condition_arms(s: StoreView, body: SaveBody, id: Seq<char>, now: i64)
    requires
        s.wf(),
        !(body.condition() is Manual),
        !is_blank(body.text@),
        s.get(id) matches Some(e) ==> !(e.state is Sending),
    ensures
        save_result(s, body, id, now).0.get(id) matches Some(d) && {
            &&& save_result(s, body, id, now).1 == draft_answer(d)
            &&& d.state is Armed
            &&& d.trigger == body.condition().kept()
            &&& d.text == body.text@
            &&& d.error is None
            &&& !d.seen_busy
        },
{
    a_save_is_read_back(s, body.draft(id, now), now);
}

/// Editing a failed draft clears the failure: it has no error, and is idle unless the save
/// arms it.
pub proof fn editing_a_failed_draft_clears_the_failure(s: StoreView, draft: DraftView, now: i64)
    requires
        s.wf(),
        s.get(draft.id) matches Some(e) && e.state is Failed,
        !is_blank(draft.text),
    ensures
        s.upsert(draft, now).0.get(draft.id) matches Some(d) && d.error is None && d.state == (
        if draft.state is Armed {
            State::Armed
        } else {
            State::Draft
        }),
{
    a_save_is_read_back(s, draft, now);
}

/// A condition that was given is found: the draft is armed, or idle where the condition is to
/// wait for a person; it watches afresh, and its text is as it was.
pub proof fn a_condition_is_read_back(s: StoreView, id: Seq<char>, trigger: TriggerView, now: i64)
    requires
        s.wf(),
        s.get(id) matches Some(d) && !(d.state is Sending),
    ensures
        s.set_trigger(id, trigger, now).1 == Ok::<Option<DraftView>, Seq<char>>(
            s.set_trigger(id, trigger, now).0.get(id),
        ),
        s.set_trigger(id, trigger, now).0.get(id) matches Some(d) && {
            &&& d.trigger == trigger.kept()
            &&& d.state == (if trigger is Manual {
                State::Draft
            } else {
                State::Armed
            })
            &&& !d.seen_busy
            &&& d.error is None
            &&& d.text == s.get(id)->0.text
        },
{
    found_under_its_id(s, id);
    put_is_read_back(s, s.get(id)->0.rearmed(trigger, now));
}

/// A draft that is mid-send is not rewritten under the dispatcher: neither a save of a text
/// nor another condition changes anything, and both are refused.
pub proof fn a_draft_being_sent_is_not_rewritten(
    s: StoreView,
    draft: DraftView,
    trigger: TriggerView,
    now: i64,
)
    requires
        s.get(draft.id) matches Some(d) && d.state is Sending,
        !is_blank(draft.text),
    ensures
        s.upsert(draft, now) == (s, Err::<Option<DraftView>, Seq<char>>(draft.id)),
        s.set_trigger(draft.id, trigger, now) == (s, Err::<Option<DraftView>, Seq<char>>(draft.id)),
{
}

/// The change ends a send, or takes the draft away.
pub open spec fn lets_go_of(change: Change, id: Seq<char>) -> bool {
    match change {
        Change::Save { draft } => draft.id == id && is_blank(draft.text),
        Change::Sent { id: i, .. } => i == id,
        Change::Failed { id: i, .. } => i == id,
        Change::Delete { id: i } => i == id,
        Change::DeleteAll => true,
        _ => false,
    }
}

/// A draft that a dispatcher has claimed stays exactly as it was claimed for two minutes,
/// whatever else happens, unless the send is reported or the draft is deleted.
pub proof fn a_claimed_draft_is_held(
    s: StoreView,
    id: Seq<char>,
    claimed_at: i64,
    changes: Seq<(Change, i64)>,
)
    requires
        s.wf(),
        s.get(id) matches Some(d) && d.state is Sending && d.claimed_at == Some(claimed_at),
        forall|i: int|
            0 <= i < changes.len() ==> !lets_go_of((#[trigger] changes[i]).0, id) && changes[i].1
                <= claimed_at + CLAIM_TIMEOUT_MS,
    ensures
        s.after_all(changes).get(id) == s.get(id),
    decreases changes.len(),
{
    if changes.len() > 0 {
        let before = changes.drop_last();
        assert forall|i: int| 0 <= i < before.len() implies !lets_go_of((#[trigger] before[i]).0, id)
            && before[i].1 <= claimed_at + CLAIM_TIMEOUT_MS by {
            assert(before[i] == changes[i]);
        }
        a_claimed_draft_is_held(s, id, claimed_at, before);
        ids_stay_distinct_throughout(s, before);
        let t = s.after_all(before);
        let (change, now) = changes[changes.len() - 1];
        assert(!lets_go_of(change, id));
        match change {
            Change::Observe { readings } => {
                observing_only_latches(t, readings);
            },
            Change::Configure { settings } => {
                assert(t.after(change, now).rows == t.rows);
            },
            Change::Save { draft } => {
                if draft.id != id {
                    other_drafts_are_left_alone(t, change, now, draft.id, id);
                }
            },
            Change::SetTrigger { id: i, .. } => {
                if i != id {
                    other_drafts_are_left_alone(t, change, now, i, id);
                }
            },
            Change::Claim { id: i } => {
                if i != id {
                    other_drafts_are_left_alone(t, change, now, i, id);
                }
            },
            Change::Sent { id: i, .. } => {
                other_drafts_are_left_alone(t, change, now, i, id);
            },
            Change::Failed { id: i, .. } => {
                other_drafts_are_left_alone(t, change, now, i, id);
            },
            Change::Delete { id: i } => {
                other_drafts_are_left_alone(t, change, now, i, id);
            },
            Change::DeleteAll => {},
        }
    }
}

/// Of two dispatchers that go for the same draft within two minutes, whatever happens in
/// between, only one gets it: a second claim is refused and changes nothing, unless the first
/// send was reported or the draft was deleted.
pub proof fn only_one_claim_wins(
    s: StoreView,
    id: Seq<char>,
    first: i64,
    changes: Seq<(Change, i64)>,
    second: i64,
)
    requires
        s.wf(),
        s.claim(id, first).1 is Some,
        forall|i: int|
            0 <= i < changes.len() ==> !lets_go_of((#[trigger] changes[i]).0, id) && changes[i].1
                <= first + CLAIM_TIMEOUT_MS,
        second <= first + CLAIM_TIMEOUT_MS,
    ensures
        s.claim(id, first).0.after_all(changes).claim(id, second) == (
            s.claim(id, first).0.after_all(changes),
            None::<DraftView>,
        ),
{
    found_under_its_id(s, id);
    put_is_read_back(s, s.get(id)->0.claimed(first));
    a_claimed_draft_is_held(s.claim(id, first).0, id, first, changes);
}

/// A claim that was won is found: the draft is being sent, and is otherwise as it was.
pub proof fn a_claim_is_read_back(s: StoreView, id: Seq<char>, now: i64)
    requires
        s.wf(),
        s.claim(id, now).1 is Some,
    ensures
        s.claim(id, now).1 == s.claim(id, now).0.get(id),
        s.get(id) is Some,
        s.claim(id, now).1 == Some(
            DraftView {
                state: State::Sending,
                claimed_at: Some(now),
                updated_at: now,
                ..s.get(id)->0
            },
        ),
{
    found_under_its_id(s, id);
    put_is_read_back(s, s.get(id)->0.claimed(now));
}

/// A draft in no known state is not taken for sending, whenever a dispatcher tries; once it is
/// saved or given a condition, it is in a known one.
pub proof fn a_draft_in_no_known_state_is_not_claimed(
    s: StoreView,
    id: Seq<char>,
    now: i64,
    draft: DraftView,
    trigger: TriggerView,
)
    requires
        s.wf(),
        s.unknown_states.dom().contains(id),
    ensures
        s.claim(id, now) == (s, None::<DraftView>),
        s.get(id) matches Some(d) && d.state is Draft,
        draft.id == id ==> !s.upsert(draft, now).0.unknown_states.dom().contains(id),
        !s.set_trigger(id, trigger, now).0.unknown_states.dom().contains(id),
{
    found_under_its_id(s, id);
}

/// A condition is kept as it is given, but for one on a percentage that is no finite number.
pub proof fn a_readable_condition_is_kept(trigger: TriggerView)
    ensures
        trigger.kept() == (if trigger is UsageReset && !trigger->below_percent.is_finite() {
            TriggerView::Manual
        } else {
            trigger
        }),
{
}

/// A dispatcher that dies mid-send does not strand the draft: more than two minutes after it
/// was claimed, it can be claimed again.
pub proof fn an_expired_claim_is_reclaimable(s: StoreView, id: Seq<char>, claimed_at: i64, now: i64)
    requires
        s.wf(),
        s.get(id) matches Some(d) && d.state is Sending && d.claimed_at == Some(claimed_at),
        now > claimed_at + CLAIM_TIMEOUT_MS,
    ensures
        s.claim(id, now).1 is Some,
        s.claim(id, now).1 == s.claim(id, now).0.get(id),
{
    found_under_its_id(s, id);
    put_is_read_back(s, s.get(id)->0.claimed(now));
}

} // verus!
