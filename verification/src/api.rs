//! The request surface: what each route does to the outbox and what it answers.
//!
//! Two consumers, two shapes:
//!
//! - [`list`] feeds the declarative `sidebar_sections` source. It answers [`DraftRow`]s,
//!   the draft plus `preview` / `state_label` / `waiting_for`, because a manifest `map`
//!   can only project keys that already exist.
//! - [`queue`] feeds the desktop dispatcher, which passes the node readings it already
//!   holds and gets back the drafts whose conditions those readings satisfy. The readings
//!   are NOT stored: a pushed snapshot would go stale between the push and the poll.
//!
//! Nothing here sends anything: a dispatcher does, and then reports what happened.

use vstd::prelude::*;
use vstd::string::*;

use crate::models::{
    Draft, DraftRow, DraftRowView, DraftView, ReadingsView, Settings, Source, State, Trigger,
    TriggerView,
};
use crate::percent::Percent;
use crate::query::{history_limit, limit_of, readings_read};
use crate::store::{
    drafts_view, found, now_ms, on_clock, outcome, BeingSent, Store, StoreView,
};
use crate::text::{chars_of, copy_opt, opt_view, str_view};

pub use crate::query::{param, parse_readings, parse_readings_at, percent_decode};

verus! {

/// What the routes work on.
pub struct Ctx {
    pub store: Store,
}

/// The body of an answer.
#[derive(Debug)]
pub enum Body {
    /// `{"drafts": [...]}`
    Drafts(Vec<DraftRow>),
    /// `{"draft": {...}}`, or `{"draft": null}` where there is none to show.
    Draft(Option<DraftRow>),
    /// `{"deleted": true}`
    Deleted,
    /// `{"deleted": n}`
    DeletedAll(usize),
    /// `{"settings": {...}}`
    Settings(Settings),
    /// `{"error": "..."}`
    Error(String),
}

/// What a [`Body`] says.
pub enum BodyView {
    Drafts(Seq<DraftRowView>),
    Draft(Option<DraftRowView>),
    Deleted,
    DeletedAll(nat),
    Settings(Settings),
    Error(Seq<char>),
}

/// The views of some rows.
pub open spec fn rows_view(rows: Seq<DraftRow>) -> Seq<DraftRowView> {
    Seq::new(rows.len(), |i: int| rows[i]@)
}

impl View for Body {
    type V = BodyView;

    open spec fn view(&self) -> BodyView {
        match *self {
            Body::Drafts(rows) => BodyView::Drafts(rows_view(rows@)),
            Body::Draft(Some(row)) => BodyView::Draft(Some(row@)),
            Body::Draft(None) => BodyView::Draft(None),
            Body::Deleted => BodyView::Deleted,
            Body::DeletedAll(n) => BodyView::DeletedAll(n as nat),
            Body::Settings(s) => BodyView::Settings(s),
            Body::Error(e) => BodyView::Error(e@),
        }
    }
}

/// An answer: its HTTP status and its body.
#[derive(Debug)]
pub struct Reply {
    pub status: u16,
    pub body: Body,
}

/// What a [`Reply`] says.
pub struct ReplyView {
    pub status: u16,
    pub body: BodyView,
}

impl View for Reply {
    type V = ReplyView;

    open spec fn view(&self) -> ReplyView {
        ReplyView { status: self.status, body: self.body@ }
    }
}

/// The sidebar rows of some drafts.
pub open spec fn rows_of(drafts: Seq<DraftView>) -> Seq<DraftRowView> {
    Seq::new(drafts.len(), |i: int| drafts[i].row())
}

/// An answer with drafts.
pub open spec fn drafts_answer(drafts: Seq<DraftView>) -> ReplyView {
    ReplyView { status: 200, body: BodyView::Drafts(rows_of(drafts)) }
}

/// An answer with one draft.
pub open spec fn draft_answer(d: DraftView) -> ReplyView {
    ReplyView { status: 200, body: BodyView::Draft(Some(d.row())) }
}

/// An answer that says what is wrong.
pub open spec fn error_answer(status: u16, message: Seq<char>) -> ReplyView {
    ReplyView { status, body: BodyView::Error(message) }
}

/// The answer about a draft that is not there.
pub open spec fn missing_answer() -> ReplyView {
    error_answer(404, "no such draft"@)
}

/// The answer to a request about one draft: the draft, or that there is none.
pub open spec fn one_answer(d: Option<DraftView>) -> ReplyView {
    match d {
        Some(d) => draft_answer(d),
        None => missing_answer(),
    }
}

/// The answer to a refused transition: the caller's request was well-formed, the draft was
/// simply not available.
pub open spec fn refused_answer(id: Seq<char>) -> ReplyView {
    error_answer(409, BeingSent::text(id))
}

/// The answer to a save. No draft means that the text was blank and the draft was removed
/// (or never created): a successful outcome, not a missing resource.
pub open spec fn save_answer(r: Result<Option<DraftView>, Seq<char>>) -> ReplyView {
    match r {
        Ok(Some(d)) => draft_answer(d),
        Ok(None) => ReplyView { status: 200, body: BodyView::Draft(None) },
        Err(id) => refused_answer(id),
    }
}

/// The answer to a change of condition.
pub open spec fn trigger_answer(r: Result<Option<DraftView>, Seq<char>>) -> ReplyView {
    match r {
        Ok(d) => one_answer(d),
        Err(id) => refused_answer(id),
    }
}

/// The answer to a claim.
pub open spec fn claim_answer(d: Option<DraftView>) -> ReplyView {
    match d {
        Some(d) => draft_answer(d),
        None => error_answer(409, "draft is already being sent"@),
    }
}

/// The sidebar rows of some drafts.
pub fn rows(drafts: Vec<Draft>) -> (r: Vec<DraftRow>)
    ensures
        rows_view(r@) == rows_of(drafts_view(drafts@)),
{
    let mut r: Vec<DraftRow> = Vec::new();
    let mut i: usize = 0;
    while i < drafts.len()
        invariant
            i <= drafts@.len(),
            r@.len() == i,
            forall|j: int| 0 <= j < i ==> (#[trigger] r@[j])@ == drafts@[j]@.row(),
        decreases drafts.len() - i,
    {
        r.push(DraftRow::from(drafts[i].clone()));
        i = i + 1;
    }
    proof {
        assert(rows_view(r@) =~= rows_of(drafts_view(drafts@)));
    }
    r
}

/// An answer with drafts.
fn drafts_reply(drafts: Vec<Draft>) -> (r: Reply)
    ensures
        r@ == drafts_answer(drafts_view(drafts@)),
{
    Reply { status: 200, body: Body::Drafts(rows(drafts)) }
}

/// An answer with one draft.
fn draft_reply(d: Draft) -> (r: Reply)
    ensures
        r@ == draft_answer(d@),
{
    Reply { status: 200, body: Body::Draft(Some(DraftRow::from(d))) }
}

/// The answer about a draft that is not there.
pub fn not_found() -> (r: Reply)
    ensures
        r@ == missing_answer(),
{
    Reply { status: 404, body: Body::Error("no such draft".to_owned()) }
}

/// The answer to a request that makes no sense.
pub fn bad_request(message: &str) -> (r: Reply)
    ensures
        r@ == error_answer(400, message@),
{
    Reply { status: 400, body: Body::Error(message.to_owned()) }
}

/// The answer to a refused transition.
pub fn conflict(e: BeingSent) -> (r: Reply)
    ensures
        r@ == refused_answer(e.id@),
{
    Reply { status: 409, body: Body::Error(e.message()) }
}

/// The answer where the outbox itself could not be read or written.
pub fn fail(message: &str) -> (r: Reply)
    ensures
        r@ == error_answer(500, message@),
{
    Reply { status: 500, body: Body::Error(message.to_owned()) }
}

/// The answer to a request about one draft.
pub fn one_reply(d: Option<Draft>) -> (r: Reply)
    ensures
        r@ == one_answer(found(d)),
{
    match d {
        Some(d) => draft_reply(d),
        None => not_found(),
    }
}

/// The answer to a save.
pub fn save_reply(result: Result<Option<Draft>, BeingSent>) -> (r: Reply)
    ensures
        r@ == save_answer(outcome(result)),
{
    match result {
        Ok(Some(d)) => draft_reply(d),
        Ok(None) => Reply { status: 200, body: Body::Draft(None) },
        Err(e) => conflict(e),
    }
}

/// The answer to a change of condition.
pub fn trigger_reply(result: Result<Option<Draft>, BeingSent>) -> (r: Reply)
    ensures
        r@ == trigger_answer(outcome(result)),
{
    match result {
        Ok(d) => one_reply(d),
        Err(e) => conflict(e),
    }
}

/// The answer to a claim.
pub fn claim_reply(d: Option<Draft>) -> (r: Reply)
    ensures
        r@ == claim_answer(found(d)),
{
    match d {
        Some(d) => draft_reply(d),
        None => Reply { status: 409, body: Body::Error("draft is already being sent".to_owned()) },
    }
}

/// `GET /list`: every draft that is not already sent, newest first.
pub fn list(ctx: &Ctx) -> (r: Reply)
    ensures
        r@ == drafts_answer(ctx.store@.open_drafts()),
{
    drafts_reply(ctx.store.list_open())
}

/// `GET /queue?running=<n>&usage=<agent>:<percent>&...`: the drafts whose condition the
/// supplied readings satisfy, oldest first. `percent_of` reads a percentage.
///
/// An omitted reading is UNKNOWN, not zero, and every trigger that depends on it
/// holds its draft (see [`Trigger::is_satisfied`]). So a dispatcher that could not
/// see the runs this tick sends nothing rather than draining the queue into a
/// node it cannot see.
pub fn queue<F: Fn(&str) -> Option<Percent>>(ctx: &mut Ctx, query: Option<&str>, percent_of: F) -> (r:
    Reply)
    requires
        old(ctx).store.wf(),
        forall|s: &str| call_requires(percent_of, (s,)),
    ensures
        final(ctx).store.wf(),
        exists|now: i64, v: ReadingsView|
            on_clock(now) && #[trigger] readings_read(percent_of, str_view(query), now, v)
                && final(ctx).store@ == old(ctx).store@.observe(v) && r@ == drafts_answer(
                old(ctx).store@.observe(v).releasable(v),
            ),
{
    let now: i64 = now_ms();
    queue_at(ctx, query, percent_of, now)
}

/// [`queue`] at the instant `now`.
pub fn queue_at<F: Fn(&str) -> Option<Percent>>(
    ctx: &mut Ctx,
    query: Option<&str>,
    percent_of: F,
    now: i64,
) -> (r: Reply)
    requires
        old(ctx).store.wf(),
        forall|s: &str| call_requires(percent_of, (s,)),
    ensures
        final(ctx).store.wf(),
        exists|v: ReadingsView|
            #[trigger] readings_read(percent_of, str_view(query), now, v) && final(ctx).store@
                == old(ctx).store@.observe(v) && r@ == drafts_answer(
                old(ctx).store@.observe(v).releasable(v),
            ),
{
    let readings = parse_readings_at(query, percent_of, now);
    drafts_reply(ctx.store.ready(&readings))
}

/// `GET /drafts?limit=<n>`: sent history, newest first.
pub fn history(ctx: &Ctx, query: Option<&str>) -> (r: Reply)
    ensures
        r@ == drafts_answer(ctx.store@.sent_drafts(limit_of(str_view(query)))),
{
    let limit: u32 = history_limit(query);
    drafts_reply(ctx.store.list_sent(limit))
}

/// The body of a create/update. Every field optional but `text` so the composer can
/// autosave with nothing but the text and an id it chose.
#[derive(Debug)]
pub struct SaveBody {
    /// Id to write under. Supply the id of an existing draft to replace it; omit it
    /// for a new one. Letters, digits, `-` and `_` only, up to 64 characters.
    pub id: Option<String>,
    /// The message text. Saving a blank text deletes the draft rather than storing an
    /// empty one.
    pub text: String,
    /// The conversation this text belongs to. A draft with no conversation is sent as
    /// a NEW chat when it eventually goes out.
    pub conversation_id: Option<String>,
    /// Which agent should receive it.
    pub agent_id: Option<String>,
    /// Model override for the eventual send.
    pub model: Option<String>,
    /// Working folder for the eventual send.
    pub folder_path: Option<String>,
    /// Where the draft came from: `manual`, `composer-autosave` or `auto-queue`.
    /// Anything else is recorded as `manual`.
    pub source: Option<String>,
    /// The condition that releases it. Omit (or give `Manual`) for a draft that only ever
    /// goes out when someone asks for it; supplying anything else arms the draft immediately.
    pub trigger: Option<Trigger>,
}

impl SaveBody {
    /// The condition that the body asks for.
    pub open spec fn condition(self) -> TriggerView {
        match self.trigger {
            Some(t) => t@,
            None => TriggerView::Manual,
        }
    }

    /// The draft that the body describes: armed where it has a condition, and with nothing
    /// observed yet.
    pub open spec fn draft(self, id: Seq<char>, now: i64) -> DraftView {
        DraftView {
            id,
            text: self.text@,
            conversation_id: opt_view(self.conversation_id),
            agent_id: opt_view(self.agent_id),
            model: opt_view(self.model),
            folder_path: opt_view(self.folder_path),
            source: match self.source {
                Some(s) => Source::named(s@),
                None => Source::Manual,
            },
            state: if self.condition() is Manual {
                State::Draft
            } else {
                State::Armed
            },
            trigger: self.condition(),
            error: None,
            seen_busy: false,
            created_at: now,
            updated_at: now,
            claimed_at: None,
            sent_at: None,
        }
    }

    /// The draft that the body describes, under that id.
    pub fn into_draft(self, id: String) -> (d: Draft)
        ensures
            exists|now: i64| on_clock(now) && d@ == #[trigger] self.draft(id@, now),
    {
        let now: i64 = now_ms();
        self.into_draft_at(id, now)
    }

    /// [`SaveBody::into_draft`] at the instant `now`.
    pub fn into_draft_at(self, id: String, now: i64) -> (d: Draft)
        ensures
            d@ == self.draft(id@, now),
    {
        let trigger: Trigger = match self.trigger {
            Some(t) => t,
            None => Trigger::default(),
        };
        let state: State = match &trigger {
            Trigger::Manual => State::Draft,
            _ => State::Armed,
        };
        Draft {
            id,
            text: self.text,
            conversation_id: self.conversation_id,
            agent_id: self.agent_id,
            model: self.model,
            folder_path: self.folder_path,
            source: match self.source {
                Some(s) => Source::parse(s.as_str()),
                None => Source::Manual,
            },
            state,
            trigger,
            error: None,
            seen_busy: false,
            created_at: now,
            updated_at: now,
            claimed_at: None,
            sent_at: None,
        }
    }
}

/// What a save does to the outbox and what it answers. The instants of the draft itself do
/// not matter: the outbox keeps its own.
pub open spec fn save_result(s: StoreView, body: SaveBody, id: Seq<char>, now: i64) -> (
    StoreView,
    ReplyView,
) {
    let (after, r) = s.upsert(body.draft(id, now), now);
    (after, save_answer(r))
}

/// The instants of a draft that is saved do not matter.
proof fn lemma_save_instants(s: StoreView, body: SaveBody, id: Seq<char>, then: i64, now: i64)
    ensures
        s.upsert(body.draft(id, then), now) == s.upsert(body.draft(id, now), now),
{
    let a = body.draft(id, then);
    let b = body.draft(id, now);
    assert(a.first_saved(now) =~= b.first_saved(now));
    match s.get(id) {
        Some(e) => {
            assert(a.saved_over(e, now) =~= b.saved_over(e, now));
        },
        None => {},
    }
}

/// Save a draft.
fn upsert(ctx: &mut Ctx, body: SaveBody, id: String) -> (r: Reply)
    requires
        old(ctx).store.wf(),
    ensures
        final(ctx).store.wf(),
        exists|now: i64|
            on_clock(now) && (final(ctx).store@, r@) == #[trigger] save_result(
                old(ctx).store@,
                body,
                id@,
                now,
            ),
{
    let ghost before = ctx.store@;
    let draft: Draft = body.into_draft(id);
    let ghost then = choose|now: i64| on_clock(now) && draft@ == #[trigger] body.draft(id@, now);
    let ghost dv = draft@;
    let result = ctx.store.upsert(draft);
    proof {
        let now = choose|now: i64|
            on_clock(now) && (ctx.store@, outcome(result)) == #[trigger] before.upsert(dv, now);
        lemma_save_instants(before, body, id@, then, now);
        assert((ctx.store@, save_answer(outcome(result))) == save_result(before, body, id@, now));
    }
    save_reply(result)
}

/// The id that a save goes under: the one asked for where it is one, else a new one.
pub open spec fn save_id(asked: Option<Seq<char>>, id: Seq<char>) -> bool {
    match asked {
        Some(a) => if valid_id(a) {
            id == a
        } else {
            new_draft_id(id)
        },
        None => new_draft_id(id),
    }
}

/// The id that is asked for, where it is one.
pub fn usable_id(asked: Option<String>) -> (id: Option<String>)
    ensures
        opt_view(id) == (match opt_view(asked) {
            Some(a) => if valid_id(a) {
                Some(a)
            } else {
                None
            },
            None => None,
        }),
{
    match asked {
        Some(a) => {
            if is_valid_id(a.as_str()) {
                Some(a)
            } else {
                None
            }
        },
        None => None,
    }
}

/// `POST /drafts`: create or replace. The caller may supply the id, which is what
/// lets the composer keep autosaving into one draft rather than one per pause.
pub fn save(ctx: &mut Ctx, body: SaveBody) -> (r: Reply)
    requires
        old(ctx).store.wf(),
    ensures
        final(ctx).store.wf(),
        exists|id: Seq<char>, now: i64|
            save_id(opt_view(body.id), id) && on_clock(now) && (final(ctx).store@, r@)
                == #[trigger] save_result(old(ctx).store@, body, id, now),
{
    let id: String = match usable_id(copy_opt(&body.id)) {
        Some(id) => id,
        None => new_id(),
    };
    proof {
        assert(save_id(opt_view(body.id), id@));
    }
    upsert(ctx, body, id)
}

/// `PATCH /drafts/:id`: same thing with the id in the path.
pub fn save_one(ctx: &mut Ctx, id: &str, body: SaveBody) -> (r: Reply)
    requires
        old(ctx).store.wf(),
    ensures
        final(ctx).store.wf(),
        !valid_id(id@) ==> final(ctx).store@ == old(ctx).store@ && r@ == error_answer(
            400,
            "invalid draft id"@,
        ),
        valid_id(id@) ==> exists|now: i64|
            on_clock(now) && (final(ctx).store@, r@) == #[trigger] save_result(
                old(ctx).store@,
                body,
                id@,
                now,
            ),
{
    if !is_valid_id(id) {
        return bad_request("invalid draft id");
    }
    upsert(ctx, body, id.to_owned())
}

/// `GET /drafts/:id`: one draft.
pub fn get_one(ctx: &Ctx, id: &str) -> (r: Reply)
    requires
        ctx.store.wf(),
    ensures
        r@ == one_answer(ctx.store@.get(id@)),
{
    one_reply(ctx.store.get(id))
}

/// `DELETE /drafts/:id`: discard one draft.
pub fn delete_one(ctx: &mut Ctx, id: &str) -> (r: Reply)
    requires
        old(ctx).store.wf(),
    ensures
        final(ctx).store.wf(),
        final(ctx).store@ == old(ctx).store@.without(id@),
        r@ == (if old(ctx).store@.get(id@) is Some {
            (ReplyView { status: 200, body: BodyView::Deleted })
        } else {
            missing_answer()
        }),
{
    if ctx.store.delete(id) {
        Reply { status: 200, body: Body::Deleted }
    } else {
        not_found()
    }
}

/// `DELETE /drafts`: wipe the outbox, history and all.
pub fn delete_all(ctx: &mut Ctx) -> (r: Reply)
    requires
        old(ctx).store.wf(),
    ensures
        final(ctx).store.wf(),
        final(ctx).store@ == StoreView::nothing(old(ctx).store@.settings),
        r@ == (ReplyView {
            status: 200,
            body: BodyView::DeletedAll(old(ctx).store@.rows.len()),
        }),
{
    let n: usize = ctx.store.delete_all();
    Reply { status: 200, body: Body::DeletedAll(n) }
}

/// What a change of condition does to the outbox and what it answers.
pub open spec fn trigger_result(s: StoreView, id: Seq<char>, trigger: TriggerView, now: i64) -> (
    StoreView,
    ReplyView,
) {
    let (after, r) = s.set_trigger(id, trigger, now);
    (after, trigger_answer(r))
}

/// Give a draft a condition.
fn set_trigger(ctx: &mut Ctx, id: &str, trigger: Trigger) -> (r: Reply)
    requires
        old(ctx).store.wf(),
    ensures
        final(ctx).store.wf(),
        exists|now: i64|
            on_clock(now) && (final(ctx).store@, r@) == #[trigger] trigger_result(
                old(ctx).store@,
                id@,
                trigger@,
                now,
            ),
{
    let ghost before = ctx.store@;
    let result = ctx.store.set_trigger(id, trigger);
    proof {
        let now = choose|now: i64|
            on_clock(now) && (ctx.store@, outcome(result)) == #[trigger] before.set_trigger(
                id@,
                trigger@,
                now,
            );
        assert((ctx.store@, trigger_answer(outcome(result))) == trigger_result(
            before,
            id@,
            trigger@,
            now,
        ));
    }
    trigger_reply(result)
}

/// `POST /drafts/:id/arm`: give the draft a condition and queue it.
pub fn arm(ctx: &mut Ctx, id: &str, trigger: Trigger) -> (r: Reply)
    requires
        old(ctx).store.wf(),
    ensures
        final(ctx).store.wf(),
        exists|now: i64|
            on_clock(now) && (final(ctx).store@, r@) == #[trigger] trigger_result(
                old(ctx).store@,
                id@,
                trigger@,
                now,
            ),
{
    set_trigger(ctx, id, trigger)
}

/// `POST /drafts/:id/disarm`: back to an idle draft that sends only by hand.
pub fn disarm(ctx: &mut Ctx, id: &str) -> (r: Reply)
    requires
        old(ctx).store.wf(),
    ensures
        final(ctx).store.wf(),
        exists|now: i64|
            on_clock(now) && (final(ctx).store@, r@) == #[trigger] trigger_result(
                old(ctx).store@,
                id@,
                TriggerView::Manual,
                now,
            ),
{
    set_trigger(ctx, id, Trigger::Manual)
}

/// What a claim does to the outbox and what it answers.
pub open spec fn claim_result(s: StoreView, id: Seq<char>, now: i64) -> (StoreView, ReplyView) {
    let (after, d) = s.claim(id, now);
    (after, claim_answer(d))
}

/// `POST /drafts/:id/claim`: take the draft for sending, or 409 if someone already
/// has it. The dispatcher calls this BEFORE it sends; the 409 is what makes two
/// open windows safe.
pub fn claim(ctx: &mut Ctx, id: &str) -> (r: Reply)
    requires
        old(ctx).store.wf(),
    ensures
        final(ctx).store.wf(),
        exists|now: i64|
            on_clock(now) && (final(ctx).store@, r@) == #[trigger] claim_result(
                old(ctx).store@,
                id@,
                now,
            ),
{
    let ghost before = ctx.store@;
    let d: Option<Draft> = ctx.store.claim(id);
    proof {
        let now = choose|now: i64|
            on_clock(now) && (ctx.store@, found(d)) == #[trigger] before.claim(id@, now);
        assert((ctx.store@, claim_answer(found(d))) == claim_result(before, id@, now));
    }
    claim_reply(d)
}

/// What the report of a send does to the outbox and what it answers.
pub open spec fn sent_result(
    s: StoreView,
    id: Seq<char>,
    conversation_id: Option<Seq<char>>,
    now: i64,
) -> (StoreView, ReplyView) {
    let (after, d) = s.mark_sent(id, conversation_id, now);
    (after, one_answer(d))
}

/// `POST /drafts/:id/sent`: the dispatcher reporting success, with the
/// conversation the message landed in so the history row can link to it.
pub fn sent(ctx: &mut Ctx, id: &str, conversation_id: Option<&str>) -> (r: Reply)
    requires
        old(ctx).store.wf(),
    ensures
        final(ctx).store.wf(),
        exists|now: i64|
            on_clock(now) && (final(ctx).store@, r@) == #[trigger] sent_result(
                old(ctx).store@,
                id@,
                str_view(conversation_id),
                now,
            ),
{
    let ghost before = ctx.store@;
    let d: Option<Draft> = ctx.store.mark_sent(id, conversation_id);
    proof {
        let now = choose|now: i64|
            on_clock(now) && (ctx.store@, found(d)) == #[trigger] before.mark_sent(
                id@,
                str_view(conversation_id),
                now,
            );
        assert((ctx.store@, one_answer(found(d))) == sent_result(
            before,
            id@,
            str_view(conversation_id),
            now,
        ));
    }
    one_reply(d)
}

/// The reason of a failed send, where none is given.
pub open spec fn reason_of(error: Option<Seq<char>>) -> Seq<char> {
    match error {
        Some(e) => e,
        None => "Send failed"@,
    }
}

/// What the report of a failed send does to the outbox and what it answers.
pub open spec fn failed_result(s: StoreView, id: Seq<char>, error: Option<Seq<char>>, now: i64) -> (
    StoreView,
    ReplyView,
) {
    let (after, d) = s.mark_failed(id, reason_of(error), now);
    (after, one_answer(d))
}

/// `POST /drafts/:id/failed`: the dispatcher reporting a failed send. The draft
/// comes back visible carrying the reason rather than vanishing.
pub fn failed(ctx: &mut Ctx, id: &str, error: Option<&str>) -> (r: Reply)
    requires
        old(ctx).store.wf(),
    ensures
        final(ctx).store.wf(),
        exists|now: i64|
            on_clock(now) && (final(ctx).store@, r@) == #[trigger] failed_result(
                old(ctx).store@,
                id@,
                str_view(error),
                now,
            ),
{
    let reason: &str = match error {
        Some(e) => e,
        None => "Send failed",
    };
    let ghost before = ctx.store@;
    let d: Option<Draft> = ctx.store.mark_failed(id, reason);
    proof {
        let now = choose|now: i64|
            on_clock(now) && (ctx.store@, found(d)) == #[trigger] before.mark_failed(
                id@,
                reason@,
                now,
            );
        assert((ctx.store@, one_answer(found(d))) == failed_result(
            before,
            id@,
            str_view(error),
            now,
        ));
    }
    one_reply(d)
}

/// An answer with settings.
pub open spec fn settings_answer(s: Settings) -> ReplyView {
    ReplyView { status: 200, body: BodyView::Settings(s) }
}

/// `GET /settings`: the node-wide settings.
pub fn get_settings(ctx: &Ctx) -> (r: Reply)
    ensures
        r@ == settings_answer(ctx.store@.current_settings()),
{
    Reply { status: 200, body: Body::Settings(ctx.store.settings()) }
}

/// The settings with a ceiling of at least one: a ceiling of 0 would queue every send forever
/// with nothing able to release it.
pub open spec fn floored(s: Settings) -> Settings {
    Settings {
        max_concurrent: if s.max_concurrent == 0 {
            1
        } else {
            s.max_concurrent
        },
        ..s
    }
}

/// `PUT /settings`: replace the node-wide settings.
pub fn put_settings(ctx: &mut Ctx, body: Settings) -> (r: Reply)
    requires
        old(ctx).store.wf(),
    ensures
        final(ctx).store.wf(),
        final(ctx).store@ == (StoreView { settings: Some(floored(body)), ..old(ctx).store@ }),
        r@ == settings_answer(floored(body)),
{
    let settings: Settings = Settings {
        max_concurrent: if body.max_concurrent == 0 { 1 } else { body.max_concurrent },
        ..body
    };
    ctx.store.save_settings(&settings);
    Reply { status: 200, body: Body::Settings(settings) }
}

/// A lower-case hexadecimal digit.
pub open spec fn lower_hex(c: char) -> bool {
    ||| '0' <= c <= '9'
    ||| 'a' <= c <= 'f'
}

/// A random UUID without hyphens: thirty-two lower-case hexadecimal digits, of which one says
/// the version and one the variant.
pub open spec fn uuid_digits(s: Seq<char>) -> bool {
    &&& s.len() == 32
    &&& forall|i: int| 0 <= i < s.len() ==> lower_hex(#[trigger] s[i])
    &&& s[12] == '4'
    &&& s[16] == '8' || s[16] == '9' || s[16] == 'a' || s[16] == 'b'
}

/// `uuid::Uuid::new_v4`, written by its `simple` format. The digits are random: claimed is
/// what holds of every version 4 UUID. `new_v4` panics where the operating system has no
/// random bytes to give.
#[verifier::external_body]
fn random_digits() -> (r: String)
    ensures
        uuid_digits(r@),
{
    uuid::Uuid::new_v4().simple().to_string()
}

/// An id of the outbox's own making.
pub open spec fn new_draft_id(id: Seq<char>) -> bool {
    exists|digits: Seq<char>| #[trigger] uuid_digits(digits) && id == "dft_"@ + digits
}

/// A new id.
pub fn new_id() -> (id: String)
    ensures
        new_draft_id(id@),
{
    let digits: String = random_digits();
    let mut id: String = "dft_".to_owned();
    id.append(digits.as_str());
    proof {
        assert(uuid_digits(digits@));
    }
    id
}

/// An id of the outbox's own making is a valid one.
pub proof fn new_ids_are_valid(id: Seq<char>)
    requires
        new_draft_id(id),
    ensures
        valid_id(id),
{
    let digits = choose|digits: Seq<char>|
        #[trigger] uuid_digits(digits) && id == "dft_"@ + digits;
    reveal_strlit("dft_");
    assert forall|i: int| 0 <= i < id.len() implies id_char(#[trigger] id[i]) by {
        if i >= 4 {
            assert(id[i] == digits[i - 4]);
            assert(lower_hex(digits[i - 4]));
        } else {
            assert(id[i] == "dft_"@[i]);
        }
    }
}

/// The characters that an id may hold: none of them a separator.
pub open spec fn id_char(c: char) -> bool {
    ||| 'a' <= c <= 'z'
    ||| 'A' <= c <= 'Z'
    ||| '0' <= c <= '9'
    ||| c == '-'
    ||| c == '_'
}

/// An id: one to sixty-four such characters.
pub open spec fn valid_id(id: Seq<char>) -> bool {
    &&& 0 < id.len() <= 64
    &&& forall|i: int| 0 <= i < id.len() ==> id_char(#[trigger] id[i])
}

/// Draft ids arrive from clients and are used as primary keys and path segments, so
/// they are restricted to a charset with no separators.
pub fn is_valid_id(id: &str) -> (r: bool)
    ensures
        r == valid_id(id@),
{
    let chars: Vec<char> = chars_of(id);
    if chars.len() == 0 || chars.len() > 64 {
        return false;
    }
    let mut i: usize = 0;
    while i < chars.len()
        invariant
            i <= chars@.len(),
            chars@ == id@,
            forall|j: int| 0 <= j < i ==> id_char(#[trigger] chars@[j]),
        decreases chars.len() - i,
    {
        let c: char = chars[i];
        let ok: bool = ('a' <= c && c <= 'z') || ('A' <= c && c <= 'Z') || ('0' <= c && c <= '9')
            || c == '-' || c == '_';
        if !ok {
            return false;
        }
        i = i + 1;
    }
    true
}

} // verus!
