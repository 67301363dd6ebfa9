//! The outbox: the table of drafts, its state machine, its orderings, and the CLAIM
//! that two clients must not win at the same time.
//!
//! Every instant is in epoch millis.

use vstd::prelude::*;
use vstd::string::*;

use crate::models::{
    default_settings, Draft, DraftView, Readings, ReadingsView, Settings, Source, State, Trigger,
    TriggerView, LAST_INSTANT_MS,
};
use crate::text::{blank, copy_opt, is_blank, join, opt_view, same, str_view};

verus! {

/// How long a `sending` claim is honoured before another dispatcher may take the
/// draft. A dispatcher that crashes mid-send must not strand the draft forever, and
/// two minutes is far longer than any send takes while still being a delay a person
/// would sit through rather than assume the queue is broken.
pub const CLAIM_TIMEOUT_MS: i64 = 120_000;

/// An instant that the clock may show: not before 1970, and no later than the last one
/// that `chrono` holds.
pub open spec fn on_clock(now: i64) -> bool {
    0 <= now <= LAST_INSTANT_MS
}

/// The time now: `chrono::Utc::now`, and `timestamp_millis` of what it gives. All that is
/// claimed is that the instant is not before 1970, where `Utc::now` panics instead, and not
/// after the last one that a `DateTime<Utc>` holds.
#[verifier::external_body]
pub fn now_ms() -> (now: i64)
    ensures
        on_clock(now),
{
    chrono::Utc::now().timestamp_millis()
}

/// The refusal to touch a draft that is being sent.
#[derive(Debug)]
pub struct BeingSent {
    pub id: String,
}

impl BeingSent {
    /// What the refusal says.
    pub open spec fn text(id: Seq<char>) -> Seq<char> {
        "draft "@ + id + " is being sent"@
    }

    /// What the refusal says.
    pub fn message(&self) -> (r: String)
        ensures
            r@ == BeingSent::text(self.id@),
    {
        join("draft ", self.id.as_str(), " is being sent")
    }
}

/// The view of a draft that may be missing.
pub open spec fn found(o: Option<Draft>) -> Option<DraftView> {
    match o {
        Some(d) => Some(d@),
        None => None,
    }
}

/// The view of an outcome: the draft as it now is, if it is, or the id of one being sent.
pub open spec fn outcome(r: Result<Option<Draft>, BeingSent>) -> Result<
    Option<DraftView>,
    Seq<char>,
> {
    match r {
        Ok(o) => Ok(found(o)),
        Err(e) => Err(e.id@),
    }
}

/// The views of some drafts.
pub open spec fn drafts_view(drafts: Seq<Draft>) -> Seq<DraftView> {
    Seq::new(drafts.len(), |i: int| drafts[i]@)
}

/// No two drafts have the same id.
pub open spec fn distinct(rows: Seq<DraftView>) -> bool {
    forall|i: int, j: int|
        0 <= i < j < rows.len() ==> (#[trigger] rows[i]).id != (#[trigger] rows[j]).id
}

/// Whether a draft has that id.
pub open spec fn holds(rows: Seq<DraftView>, id: Seq<char>) -> bool {
    exists|i: int| 0 <= i < rows.len() && (#[trigger] rows[i]).id == id
}

/// Where the draft with that id stands.
pub open spec fn place(rows: Seq<DraftView>, id: Seq<char>) -> int {
    choose|i: int| 0 <= i < rows.len() && (#[trigger] rows[i]).id == id
}

/// Among distinct drafts, the place of an id is where the draft with that id stands.
pub proof fn lemma_place(rows: Seq<DraftView>, id: Seq<char>, i: int)
    requires
        distinct(rows),
        0 <= i < rows.len(),
        rows[i].id == id,
    ensures
        holds(rows, id),
        place(rows, id) == i,
{
    let p = place(rows, id);
    assert(rows[p].id == id);
    if p < i {
        assert(rows[p].id != rows[i].id);
    } else if i < p {
        assert(rows[i].id != rows[p].id);
    }
}

/// What the orderings go by.
#[derive(Debug, Clone, Copy)]
pub enum Order {
    /// The oldest first.
    Created,
    /// The one touched last first.
    Updated,
    /// The one sent last first, those without an instant at the end.
    Sent,
}

/// The number that the ordering goes by, the smallest first.
pub open spec fn order_key(order: Order, d: DraftView) -> int {
    match order {
        Order::Created => d.created_at as int,
        Order::Updated => -(d.updated_at as int),
        Order::Sent => match d.sent_at {
            Some(t) => -(t as int),
            None => 0x8000_0000_0000_0001,
        },
    }
}

/// Where a draft with that key goes in an ordered row: behind all that do not come after it.
pub open spec fn slot(s: Seq<DraftView>, order: Order, key: int) -> int
    decreases s.len(),
{
    if s.len() == 0 || order_key(order, s.last()) <= key {
        s.len() as int
    } else {
        slot(s.drop_last(), order, key)
    }
}

/// The drafts in order; those with one key stay as they stood.
pub open spec fn arranged(s: Seq<DraftView>, order: Order) -> Seq<DraftView>
    decreases s.len(),
{
    if s.len() == 0 {
        s
    } else {
        let before = arranged(s.drop_last(), order);
        before.insert(slot(before, order, order_key(order, s.last())), s.last())
    }
}

/// A slot lies in the row.
pub proof fn lemma_slot_bounds(s: Seq<DraftView>, order: Order, key: int)
    ensures
        0 <= slot(s, order, key) <= s.len(),
    decreases s.len(),
{
    if s.len() > 0 {
        lemma_slot_bounds(s.drop_last(), order, key);
    }
}

/// From a place behind which all come later, the slot is looked for before it.
proof fn lemma_slot_before(s: Seq<DraftView>, order: Order, key: int, i: int)
    requires
        0 <= i <= s.len(),
        forall|j: int| i <= j < s.len() ==> order_key(order, #[trigger] s[j]) > key,
    ensures
        slot(s, order, key) == slot(s.take(i), order, key),
    decreases s.len(),
{
    if i == s.len() {
        assert(s.take(i) =~= s);
    } else {
        assert(order_key(order, s[s.len() - 1]) > key);
        lemma_slot_before(s.drop_last(), order, key, i);
        assert(s.drop_last().take(i) =~= s.take(i));
    }
}

/// The number that the ordering goes by.
fn key_of(order: Order, d: &Draft) -> (k: i128)
    ensures
        k == order_key(order, d@),
{
    match order {
        Order::Created => d.created_at as i128,
        Order::Updated => -(d.updated_at as i128),
        Order::Sent => match d.sent_at {
            Some(t) => -(t as i128),
            None => 0x8000_0000_0000_0001,
        },
    }
}

/// Put the drafts in order.
fn arrange(drafts: Vec<Draft>, order: Order) -> (out: Vec<Draft>)
    ensures
        drafts_view(out@) == arranged(drafts_view(drafts@), order),
{
    let mut out: Vec<Draft> = Vec::new();
    let ghost all = drafts_view(drafts@);
    let mut i: usize = 0;
    proof {
        assert(drafts_view(out@) =~= arranged(all.take(0), order));
    }
    while i < drafts.len()
        invariant
            i <= drafts@.len(),
            all == drafts_view(drafts@),
            drafts_view(out@) == arranged(all.take(i as int), order),
        decreases drafts.len() - i,
    {
        let d: Draft = drafts[i].clone();
        let key: i128 = key_of(order, &d);
        let ghost before = drafts_view(out@);
        let mut at: usize = out.len();
        while at > 0 && key_of(order, &out[at - 1]) > key
            invariant
                at <= out@.len(),
                key == order_key(order, d@),
                before == drafts_view(out@),
                forall|j: int| at <= j < before.len() ==> order_key(order, #[trigger] before[j])
                    > key,
            decreases at,
        {
            at = at - 1;
        }
        proof {
            lemma_slot_before(before, order, key as int, at as int);
            assert(slot(before.take(at as int), order, key as int) == at);
            assert(all.take(i + 1).drop_last() =~= all.take(i as int));
            assert(all.take(i + 1).last() == d@);
        }
        out.insert(at, d);
        proof {
            assert(drafts_view(out@) =~= before.insert(at as int, d@));
        }
        i = i + 1;
    }
    proof {
        assert(all.take(all.len() as int) =~= all);
    }
    out
}

/// What a [`Store`] holds.
#[verifier::ext_equal]
pub struct StoreView {
    pub rows: Seq<DraftView>,
    /// What is written in the place of a state, by the ids of the drafts where it is the name
    /// of none. Such a draft reads as idle, but it is not one that a dispatcher may take.
    pub unknown_states: Map<Seq<char>, Seq<char>>,
    pub settings: Option<Settings>,
}

impl DraftView {
    /// Whether a dispatcher may take the draft for sending: it is idle or armed, or the
    /// claim that another took has expired.
    pub open spec fn claimable(self, now: i64) -> bool {
        match self.state {
            State::Draft | State::Armed => true,
            State::Sending => match self.claimed_at {
                Some(t) => t < now - CLAIM_TIMEOUT_MS,
                None => false,
            },
            State::Sent | State::Failed => false,
        }
    }

    /// The draft, taken for sending.
    pub open spec fn claimed(self, now: i64) -> DraftView {
        DraftView { state: State::Sending, claimed_at: Some(now), updated_at: now, ..self }
    }

    /// The draft with another condition, which it watches for afresh.
    pub open spec fn rearmed(self, trigger: TriggerView, now: i64) -> DraftView {
        DraftView {
            trigger: trigger.kept(),
            state: if trigger is Manual {
                State::Draft
            } else {
                State::Armed
            },
            error: None,
            updated_at: now,
            seen_busy: false,
            ..self
        }
    }

    /// The draft, sent, in the conversation it landed in.
    pub open spec fn sent(self, conversation_id: Option<Seq<char>>, now: i64) -> DraftView {
        DraftView {
            state: State::Sent,
            sent_at: Some(now),
            updated_at: now,
            claimed_at: None,
            error: None,
            conversation_id: match conversation_id {
                Some(c) => Some(c),
                None => self.conversation_id,
            },
            ..self
        }
    }

    /// The draft, back with the reason why it could not be sent.
    pub open spec fn failed(self, error: Seq<char>, now: i64) -> DraftView {
        DraftView {
            state: State::Failed,
            error: Some(error),
            updated_at: now,
            claimed_at: None,
            ..self
        }
    }

    /// The draft, told that the node was seen busy.
    pub open spec fn latched(self) -> DraftView {
        if self.state is Armed {
            DraftView { seen_busy: true, ..self }
        } else {
            self
        }
    }

    /// What is kept of a draft that nothing was kept of before.
    pub open spec fn first_saved(self, now: i64) -> DraftView {
        DraftView {
            trigger: self.trigger.kept(),
            created_at: now,
            updated_at: now,
            seen_busy: false,
            ..self
        }
    }

    /// What is kept of a draft in the place of `existing`. Where it came from, when, and its
    /// claim and send instants stay; an error that was about the former text goes, and the
    /// draft is idle again unless this arms it; and a draft that is armed by this watches
    /// afresh.
    pub open spec fn saved_over(self, existing: DraftView, now: i64) -> DraftView {
        let state = if existing.state is Failed && !(self.state is Armed) {
            State::Draft
        } else {
            self.state
        };
        DraftView {
            source: existing.source,
            state,
            trigger: self.trigger.kept(),
            error: if existing.state is Failed {
                None
            } else {
                self.error
            },
            seen_busy: existing.seen_busy && !(state is Armed),
            created_at: existing.created_at,
            updated_at: now,
            claimed_at: existing.claimed_at,
            sent_at: existing.sent_at,
            ..self
        }
    }
}

impl StoreView {
    /// Distinct drafts, of which those in no known state read as idle.
    pub open spec fn wf(self) -> bool {
        &&& distinct(self.rows)
        &&& forall|id: Seq<char>| #[trigger]
            self.unknown_states.dom().contains(id) ==> self.get(id) is Some && self.get(
                id,
            )->0.state is Draft && !State::is_name(self.unknown_states[id])
    }

    /// An outbox with no draft in it.
    pub open spec fn nothing(settings: Option<Settings>) -> StoreView {
        StoreView { rows: Seq::empty(), unknown_states: Map::empty(), settings }
    }

    /// What is written in the place of the draft's state.
    pub open spec fn state_text(self, d: DraftView) -> Seq<char> {
        if self.unknown_states.dom().contains(d.id) {
            self.unknown_states[d.id]
        } else {
            d.state.name()
        }
    }

    /// The draft with that id.
    pub open spec fn get(self, id: Seq<char>) -> Option<DraftView> {
        if holds(self.rows, id) {
            Some(self.rows[place(self.rows, id)])
        } else {
            None
        }
    }

    /// The draft in the place of the one with its id, or at the end.
    pub open spec fn put(self, d: DraftView) -> StoreView {
        StoreView {
            rows: if holds(self.rows, d.id) {
                self.rows.update(place(self.rows, d.id), d)
            } else {
                self.rows.push(d)
            },
            unknown_states: self.unknown_states.remove(d.id),
            ..self
        }
    }

    /// Everything but the draft with that id.
    pub open spec fn without(self, id: Seq<char>) -> StoreView {
        StoreView {
            rows: if holds(self.rows, id) {
                self.rows.remove(place(self.rows, id))
            } else {
                self.rows
            },
            unknown_states: self.unknown_states.remove(id),
            ..self
        }
    }

    /// Saving a draft: a blank text deletes it, and one that is being sent is left alone.
    pub open spec fn upsert(self, draft: DraftView, now: i64) -> (
        StoreView,
        Result<Option<DraftView>, Seq<char>>,
    ) {
        if is_blank(draft.text) {
            (self.without(draft.id), Ok(None))
        } else {
            match self.get(draft.id) {
                None => (self.put(draft.first_saved(now)), Ok(Some(draft.first_saved(now)))),
                Some(e) => if e.state is Sending {
                    (self, Err(draft.id))
                } else {
                    (self.put(draft.saved_over(e, now)), Ok(Some(draft.saved_over(e, now))))
                },
            }
        }
    }

    /// Giving a draft a condition: one that is being sent is left alone.
    pub open spec fn set_trigger(self, id: Seq<char>, trigger: TriggerView, now: i64) -> (
        StoreView,
        Result<Option<DraftView>, Seq<char>>,
    ) {
        match self.get(id) {
            None => (self, Ok(None)),
            Some(e) => if e.state is Sending {
                (self, Err(id))
            } else {
                (self.put(e.rearmed(trigger, now)), Ok(Some(e.rearmed(trigger, now))))
            },
        }
    }

    /// Taking a draft for sending. One in no known state is left alone.
    pub open spec fn claim(self, id: Seq<char>, now: i64) -> (StoreView, Option<DraftView>) {
        match self.get(id) {
            Some(e) => if e.claimable(now) && !self.unknown_states.dom().contains(id) {
                (self.put(e.claimed(now)), Some(e.claimed(now)))
            } else {
                (self, None)
            },
            None => (self, None),
        }
    }

    /// Recording a send.
    pub open spec fn mark_sent(self, id: Seq<char>, conversation_id: Option<Seq<char>>, now: i64) -> (
        StoreView,
        Option<DraftView>,
    ) {
        match self.get(id) {
            Some(e) => (
                self.put(e.sent(conversation_id, now)),
                Some(e.sent(conversation_id, now)),
            ),
            None => (self, None),
        }
    }

    /// Recording a send that failed.
    pub open spec fn mark_failed(self, id: Seq<char>, error: Seq<char>, now: i64) -> (
        StoreView,
        Option<DraftView>,
    ) {
        match self.get(id) {
            Some(e) => (self.put(e.failed(error, now)), Some(e.failed(error, now))),
            None => (self, None),
        }
    }

    /// Every armed draft told that the node was seen busy.
    pub open spec fn latch(self) -> StoreView {
        StoreView {
            rows: Seq::new(self.rows.len(), |i: int| self.rows[i].latched()),
            ..self
        }
    }

    /// What a reading leaves behind: where work is running, every armed draft knows it.
    pub open spec fn observe(self, r: ReadingsView) -> StoreView {
        if r.running matches Some(n) && n > 0 {
            self.latch()
        } else {
            self
        }
    }

    /// The armed drafts whose condition holds, the oldest first.
    pub open spec fn releasable(self, r: ReadingsView) -> Seq<DraftView> {
        arranged(self.rows.filter(|d: DraftView| releases(d, r)), Order::Created)
    }

    /// The drafts that are not sent, the one touched last first.
    pub open spec fn open_drafts(self) -> Seq<DraftView> {
        arranged(self.rows.filter(|d: DraftView| !(d.state is Sent)), Order::Updated)
    }

    /// The drafts that are sent, the one sent last first.
    pub open spec fn sent_drafts(self, limit: nat) -> Seq<DraftView> {
        first_of(arranged(self.rows.filter(|d: DraftView| d.state is Sent), Order::Sent), limit)
    }

    /// The settings, or the defaults where none are kept.
    pub open spec fn current_settings(self) -> Settings {
        match self.settings {
            Some(s) => s,
            None => default_settings(),
        }
    }
}

/// Whether a draft may go out, given what was read of the node.
pub open spec fn releases(d: DraftView, r: ReadingsView) -> bool {
    d.state is Armed && d.trigger.satisfied(r, d.seen_busy)
}

/// No more than `limit` of them.
pub open spec fn first_of(s: Seq<DraftView>, limit: nat) -> Seq<DraftView> {
    if s.len() <= limit {
        s
    } else {
        s.take(limit as int)
    }
}

/// The outbox.
pub struct Store {
    rows: Vec<Draft>,
    /// The drafts in no known state, each with what is written in the place of one.
    unknown: Vec<(String, String)>,
    settings: Option<Settings>,
}

/// What the pairs say, a later one in the place of an earlier one.
spec fn names_of(pairs: Seq<(String, String)>) -> Map<Seq<char>, Seq<char>>
    decreases pairs.len(),
{
    if pairs.len() == 0 {
        Map::empty()
    } else {
        names_of(pairs.drop_last()).insert(pairs.last().0@, pairs.last().1@)
    }
}

impl View for Store {
    type V = StoreView;

    closed spec fn view(&self) -> StoreView {
        StoreView {
            rows: drafts_view(self.rows@),
            unknown_states: names_of(self.unknown@),
            settings: self.settings,
        }
    }
}

impl Store {
    /// Distinct drafts, of which those in no known state read as idle.
    pub open spec fn wf(&self) -> bool {
        self@.wf()
    }

    /// An empty outbox in memory.
    pub fn memory() -> (s: Store)
        ensures
            s.wf(),
            s@ == StoreView::nothing(None),
    {
        let s = Store { rows: Vec::new(), unknown: Vec::new(), settings: None };
        proof {
            assert(s@.rows =~= Seq::empty());
        }
        s
    }

    /// Where the draft with that id stands.
    fn position(&self, id: &str) -> (r: Option<usize>)
        requires
            self.wf(),
        ensures
            match r {
                Some(i) => i < self.rows@.len() && self.rows@[i as int]@.id == id@ && holds(
                    self@.rows,
                    id@,
                ) && place(self@.rows, id@) == i,
                None => !holds(self@.rows, id@),
            },
    {
        let mut i: usize = 0;
        while i < self.rows.len()
            invariant
                self.wf(),
                i <= self.rows@.len(),
                forall|j: int| 0 <= j < i ==> (#[trigger] self@.rows[j]).id != id@,
            decreases self.rows.len() - i,
        {
            if same(self.rows[i].id.as_str(), id) {
                proof {
                    lemma_place(self@.rows, id@, i as int);
                }
                return Some(i);
            }
            i = i + 1;
        }
        None
    }

    /// What is written in the place of the draft's state, where that is the name of none.
    fn unknown_state(&self, id: &str) -> (r: Option<String>)
        ensures
            opt_view(r) == (if self@.unknown_states.dom().contains(id@) {
                Some(self@.unknown_states[id@])
            } else {
                None
            }),
    {
        let ghost all = self.unknown@;
        let mut i: usize = self.unknown.len();
        proof {
            assert(all.take(all.len() as int) =~= all);
        }
        while i > 0
            invariant
                i <= self.unknown@.len(),
                all == self.unknown@,
                names_of(all).dom().contains(id@) == names_of(all.take(i as int)).dom().contains(
                    id@,
                ),
                names_of(all)[id@] == names_of(all.take(i as int))[id@],
            decreases i,
        {
            i = i - 1;
            proof {
                assert(all.take(i + 1).drop_last() =~= all.take(i as int));
                assert(all.take(i + 1).last() == all[i as int]);
            }
            if same(self.unknown[i].0.as_str(), id) {
                return Some(self.unknown[i].1.clone());
            }
        }
        proof {
            assert(names_of(all.take(0)) =~= Map::empty());
        }
        None
    }

    /// Drop what is written in the place of the draft's state.
    fn forget_state(&mut self, id: &str)
        ensures
            final(self).rows@ == old(self).rows@,
            final(self)@ == (StoreView {
                unknown_states: old(self)@.unknown_states.remove(id@),
                ..old(self)@
            }),
    {
        let ghost all = self.unknown@;
        let mut left: Vec<(String, String)> = Vec::new();
        let mut i: usize = 0;
        proof {
            assert(names_of(left@) =~= names_of(all.take(0)).remove(id@));
        }
        while i < self.unknown.len()
            invariant
                i <= self.unknown@.len(),
                *self == *old(self),
                all == self.unknown@,
                names_of(left@) == names_of(all.take(i as int)).remove(id@),
            decreases self.unknown.len() - i,
        {
            let ghost before = left@;
            proof {
                assert(all.take(i + 1).drop_last() =~= all.take(i as int));
                assert(all.take(i + 1).last() == all[i as int]);
            }
            if !same(self.unknown[i].0.as_str(), id) {
                left.push((self.unknown[i].0.clone(), self.unknown[i].1.clone()));
                proof {
                    assert(left@.drop_last() =~= before);
                }
            }
            proof {
                assert(names_of(left@) =~= names_of(all.take(i + 1)).remove(id@));
            }
            i = i + 1;
        }
        proof {
            assert(all.take(all.len() as int) =~= all);
        }
        self.unknown = left;
    }

    /// Put `d` in the place of the draft with its id.
    fn replace(&mut self, i: usize, d: Draft)
        requires
            old(self).wf(),
            i < old(self).rows@.len(),
            old(self).rows@[i as int]@.id == d@.id,
        ensures
            final(self).wf(),
            final(self)@ == old(self)@.put(d@),
            final(self).rows@.len() == old(self).rows@.len(),
            final(self).rows@[i as int]@ == d@,
    {
        let ghost dv = d@;
        proof {
            lemma_place(self@.rows, dv.id, i as int);
            lemma_put(self@, dv);
        }
        let id: String = d.id.clone();
        self.rows.set(i, d);
        proof {
            assert(self@.rows =~= old(self)@.rows.update(i as int, dv));
        }
        self.forget_state(id.as_str());
        proof {
            assert(self@ =~= old(self)@.put(dv));
        }
    }

    /// The draft with that id.
    pub fn get(&self, id: &str) -> (r: Option<Draft>)
        requires
            self.wf(),
        ensures
            found(r) == self@.get(id@),
    {
        match self.position(id) {
            Some(i) => Some(self.rows[i].clone()),
            None => None,
        }
    }
}

/// A draft that was put is found, every other draft is found as before, and the outbox stays
/// well-formed.
pub proof fn lemma_put(s: StoreView, d: DraftView)
    requires
        s.wf(),
    ensures
        s.put(d).wf(),
        s.put(d).get(d.id) == Some(d),
        forall|id: Seq<char>| id != d.id ==> #[trigger] s.put(d).get(id) == s.get(id),
{
    let t = s.put(d);
    assert forall|a: int, b: int| 0 <= a < b < t.rows.len() implies (#[trigger] t.rows[a]).id != (
    #[trigger] t.rows[b]).id by {
        if holds(s.rows, d.id) {
            let p = place(s.rows, d.id);
            assert(s.rows[p].id == d.id);
            assert(s.rows[a].id != s.rows[b].id);
        } else if b < s.rows.len() {
            assert(s.rows[a].id != s.rows[b].id);
        } else {
            assert(t.rows[a] == s.rows[a]);
        }
    }
    let at = if holds(s.rows, d.id) {
        place(s.rows, d.id)
    } else {
        s.rows.len() as int
    };
    assert(t.rows[at] == d);
    lemma_place(t.rows, d.id, at);
    assert forall|id: Seq<char>| id != d.id implies #[trigger] t.get(id) == s.get(id) by {
        if holds(s.rows, id) {
            let p = place(s.rows, id);
            assert(s.rows[p].id == id);
            assert(t.rows[p] == s.rows[p]);
            lemma_place(t.rows, id, p);
        }
        if holds(t.rows, id) {
            let p = place(t.rows, id);
            assert(t.rows[p].id == id);
            assert(s.rows[p] == t.rows[p]);
            lemma_place(s.rows, id, p);
        }
    }
    assert forall|id: Seq<char>| #[trigger] t.unknown_states.dom().contains(id) implies t.get(
        id,
    ) is Some && t.get(id)->0.state is Draft && !State::is_name(t.unknown_states[id]) by {
        assert(s.unknown_states.dom().contains(id));
        assert(t.get(id) == s.get(id));
    }
}

/// A draft that was taken away is not found, every other draft is found as before, and the
/// outbox stays well-formed.
pub proof fn lemma_without(s: StoreView, id: Seq<char>)
    requires
        s.wf(),
    ensures
        s.without(id).wf(),
        s.without(id).get(id) is None,
        forall|other: Seq<char>| other != id ==> #[trigger] s.without(id).get(other) == s.get(other),
{
    let t = s.without(id);
    if holds(s.rows, id) {
        let at = place(s.rows, id);
        assert(s.rows[at].id == id);
        assert forall|a: int, b: int| 0 <= a < b < t.rows.len() implies (#[trigger] t.rows[a]).id
            != (#[trigger] t.rows[b]).id by {
            let a0 = if a < at { a } else { a + 1 };
            let b0 = if b < at { b } else { b + 1 };
            assert(t.rows[a] == s.rows[a0]);
            assert(t.rows[b] == s.rows[b0]);
            assert(s.rows[a0].id != s.rows[b0].id);
        }
        if holds(t.rows, id) {
            let p = place(t.rows, id);
            let p0 = if p < at { p } else { p + 1 };
            assert(t.rows[p].id == id);
            assert(t.rows[p] == s.rows[p0]);
            assert(s.rows[p0].id != s.rows[at].id);
        }
        assert forall|other: Seq<char>| other != id implies #[trigger] t.get(other) == s.get(
            other,
        ) by {
            if holds(s.rows, other) {
                let p = place(s.rows, other);
                assert(s.rows[p].id == other);
                let q = if p < at { p } else { p - 1 };
                assert(t.rows[q] == s.rows[p]);
                lemma_place(t.rows, other, q);
            }
            if holds(t.rows, other) {
                let p = place(t.rows, other);
                assert(t.rows[p].id == other);
                let q = if p < at { p } else { p + 1 };
                assert(s.rows[q] == t.rows[p]);
                lemma_place(s.rows, other, q);
            }
        }
    }
    assert forall|other: Seq<char>| #[trigger] t.unknown_states.dom().contains(other) implies t.get(
        other,
    ) is Some && t.get(other)->0.state is Draft && !State::is_name(t.unknown_states[other]) by {
        assert(s.unknown_states.dom().contains(other));
        assert(t.get(other) == s.get(other));
    }
}

/// A latch changes nothing but the latch of armed drafts, and the outbox stays well-formed.
pub proof fn lemma_latch(s: StoreView)
    requires
        s.wf(),
    ensures
        s.latch().wf(),
        forall|id: Seq<char>|
            #[trigger] s.latch().get(id) == (match s.get(id) {
                Some(d) => Some(d.latched()),
                None => None,
            }),
{
    let t = s.latch();
    assert forall|i: int, j: int| 0 <= i < j < t.rows.len() implies (#[trigger] t.rows[i]).id != (
    #[trigger] t.rows[j]).id by {
        assert(s.rows[i].id != s.rows[j].id);
    }
    assert forall|id: Seq<char>|
        #[trigger] t.get(id) == (match s.get(id) {
            Some(d) => Some(d.latched()),
            None => None,
        }) by {
        if holds(s.rows, id) {
            let p = place(s.rows, id);
            assert(s.rows[p].id == id);
            assert(t.rows[p].id == id);
            lemma_place(t.rows, id, p);
        }
        if holds(t.rows, id) {
            let p = place(t.rows, id);
            assert(t.rows[p].id == id);
            assert(s.rows[p].id == id);
            lemma_place(s.rows, id, p);
        }
    }
    assert forall|id: Seq<char>| #[trigger] t.unknown_states.dom().contains(id) implies t.get(
        id,
    ) is Some && t.get(id)->0.state is Draft && !State::is_name(t.unknown_states[id]) by {
        assert(s.unknown_states.dom().contains(id));
        assert(t.get(id) == Some(s.get(id)->0.latched()));
    }
}

impl Store {
    /// Insert a new draft, or replace the text of an existing one.
    ///
    /// `id` is caller-supplied so the composer can keep autosaving into the SAME
    /// draft as the user types instead of leaving a trail of one draft per
    /// keystroke pause. A blank-text upsert onto an existing draft DELETES it: that is
    /// the user clearing the composer, and keeping an empty row would put a permanent
    /// "Empty draft" in the sidebar.
    pub fn upsert(&mut self, draft: Draft) -> (r: Result<Option<Draft>, BeingSent>)
        requires
            old(self).wf(),
        ensures
            final(self).wf(),
            exists|now: i64|
                on_clock(now) && (final(self)@, outcome(r)) == #[trigger] old(self)@.upsert(
                    draft@,
                    now,
                ),
    {
        let now: i64 = now_ms();
        self.upsert_at(draft, now)
    }

    /// [`Store::upsert`] at the instant `now`.
    pub fn upsert_at(&mut self, draft: Draft, now: i64) -> (r: Result<Option<Draft>, BeingSent>)
        requires
            old(self).wf(),
        ensures
            final(self).wf(),
            (final(self)@, outcome(r)) == old(self)@.upsert(draft@, now),
    {
        if blank(draft.text.as_str()) {
            self.delete(draft.id.as_str());
            return Ok(None);
        }
        match self.position(draft.id.as_str()) {
            None => {
                let mut kept: Draft = draft;
                kept.trigger = kept.trigger.into_kept();
                kept.created_at = now;
                kept.updated_at = now;
                kept.seen_busy = false;
                let answer: Draft = kept.clone();
                proof {
                    lemma_put(self@, kept@);
                }
                self.rows.push(kept);
                proof {
                    assert(self@.rows =~= old(self)@.rows.push(answer@));
                }
                self.forget_state(answer.id.as_str());
                proof {
                    assert(self@ =~= old(self)@.put(answer@));
                }
                Ok(Some(answer))
            },
            Some(i) => {
                // A draft that is mid-send must not be rewritten under the dispatcher.
                let mut kept: Draft = draft;
                match self.rows[i].state {
                    State::Sending => {
                        return Err(BeingSent { id: kept.id });
                    },
                    // Editing a failed draft clears the failure: the text the error was
                    // about no longer exists.
                    State::Failed => {
                        kept.state = match kept.state {
                            State::Armed => State::Armed,
                            _ => State::Draft,
                        };
                        kept.error = None;
                    },
                    _ => {},
                }
                kept.trigger = kept.trigger.into_kept();
                kept.source = self.rows[i].source;
                kept.created_at = self.rows[i].created_at;
                kept.updated_at = now;
                kept.claimed_at = self.rows[i].claimed_at;
                kept.sent_at = self.rows[i].sent_at;
                // An armed draft starts its watch afresh.
                kept.seen_busy = match kept.state {
                    State::Armed => false,
                    _ => self.rows[i].seen_busy,
                };
                let answer: Draft = kept.clone();
                self.replace(i, kept);
                Ok(Some(answer))
            },
        }
    }

    /// Give a draft a condition. `Manual` disarms it back to an idle draft.
    pub fn set_trigger(&mut self, id: &str, trigger: Trigger) -> (r: Result<
        Option<Draft>,
        BeingSent,
    >)
        requires
            old(self).wf(),
        ensures
            final(self).wf(),
            exists|now: i64|
                on_clock(now) && (final(self)@, outcome(r)) == #[trigger] old(self)@.set_trigger(
                    id@,
                    trigger@,
                    now,
                ),
    {
        match self.position(id) {
            None => {
                proof {
                    assert((self@, Ok::<Option<DraftView>, Seq<char>>(None)) == self@.set_trigger(
                        id@,
                        trigger@,
                        0,
                    ));
                }
                Ok(None)
            },
            Some(i) => match self.rows[i].state {
                State::Sending => {
                    proof {
                        assert((self@, Err::<Option<DraftView>, Seq<char>>(id@))
                            == self@.set_trigger(id@, trigger@, 0));
                    }
                    Err(BeingSent { id: id.to_owned() })
                },
                _ => {
                    let now: i64 = now_ms();
                    let d: Draft = self.rearm(i, trigger, now);
                    proof {
                        assert((self@, Ok::<Option<DraftView>, Seq<char>>(Some(d@))) == old(
                            self,
                        )@.set_trigger(id@, trigger@, now));
                    }
                    Ok(Some(d))
                },
            },
        }
    }

    /// Give the draft that stands there a condition.
    fn rearm(&mut self, i: usize, trigger: Trigger, now: i64) -> (d: Draft)
        requires
            old(self).wf(),
            i < old(self).rows@.len(),
        ensures
            final(self).wf(),
            d@ == old(self).rows@[i as int]@.rearmed(trigger@, now),
            final(self)@ == old(self)@.put(d@),
    {
        let mut d: Draft = self.rows[i].clone();
        d.state = match &trigger {
            Trigger::Manual => State::Draft,
            _ => State::Armed,
        };
        d.trigger = trigger.into_kept();
        d.error = None;
        d.updated_at = now;
        d.seen_busy = false;
        let answer: Draft = d.clone();
        self.replace(i, d);
        answer
    }

    /// [`Store::set_trigger`] at the instant `now`.
    pub fn set_trigger_at(&mut self, id: &str, trigger: Trigger, now: i64) -> (r: Result<
        Option<Draft>,
        BeingSent,
    >)
        requires
            old(self).wf(),
        ensures
            final(self).wf(),
            (final(self)@, outcome(r)) == old(self)@.set_trigger(id@, trigger@, now),
    {
        match self.position(id) {
            None => Ok(None),
            Some(i) => match self.rows[i].state {
                State::Sending => Err(BeingSent { id: id.to_owned() }),
                _ => Ok(Some(self.rearm(i, trigger, now))),
            },
        }
    }

    /// Take a draft for sending. Returns `None` when someone else already has it.
    ///
    /// The whole double-send guard is this one step: it takes only a draft that is not
    /// being sent (or whose claim has expired), so of two dispatchers racing on the same
    /// draft exactly one gets it.
    pub fn claim(&mut self, id: &str) -> (r: Option<Draft>)
        requires
            old(self).wf(),
        ensures
            final(self).wf(),
            exists|now: i64|
                on_clock(now) && (final(self)@, found(r)) == #[trigger] old(self)@.claim(id@, now),
    {
        let now: i64 = now_ms();
        self.claim_at(id, now)
    }

    /// [`Store::claim`] at the instant `now`.
    pub fn claim_at(&mut self, id: &str, now: i64) -> (r: Option<Draft>)
        requires
            old(self).wf(),
            now >= i64::MIN + CLAIM_TIMEOUT_MS,
        ensures
            final(self).wf(),
            (final(self)@, found(r)) == old(self)@.claim(id@, now),
    {
        match self.position(id) {
            None => None,
            Some(i) => {
                let mut d: Draft = self.rows[i].clone();
                let free: bool = match d.state {
                    State::Draft => true,
                    State::Armed => true,
                    State::Sending => match d.claimed_at {
                        Some(t) => t < now - CLAIM_TIMEOUT_MS,
                        None => false,
                    },
                    State::Sent => false,
                    State::Failed => false,
                };
                if !free || self.unknown_state(id).is_some() {
                    return None;
                }
                d.state = State::Sending;
                d.claimed_at = Some(now);
                d.updated_at = now;
                let answer: Draft = d.clone();
                self.replace(i, d);
                Some(answer)
            },
        }
    }

    /// Record a successful send. The draft is kept as history, not deleted, so
    /// "what did I queue and did it go" has an answer.
    pub fn mark_sent(&mut self, id: &str, conversation_id: Option<&str>) -> (r: Option<Draft>)
        requires
            old(self).wf(),
        ensures
            final(self).wf(),
            exists|now: i64|
                on_clock(now) && (final(self)@, found(r)) == #[trigger] old(self)@.mark_sent(
                    id@,
                    str_view(conversation_id),
                    now,
                ),
    {
        let now: i64 = now_ms();
        self.mark_sent_at(id, conversation_id, now)
    }

    /// [`Store::mark_sent`] at the instant `now`.
    pub fn mark_sent_at(&mut self, id: &str, conversation_id: Option<&str>, now: i64) -> (r:
        Option<Draft>)
        requires
            old(self).wf(),
        ensures
            final(self).wf(),
            (final(self)@, found(r)) == old(self)@.mark_sent(id@, str_view(conversation_id), now),
    {
        match self.position(id) {
            None => None,
            Some(i) => {
                let mut d: Draft = self.rows[i].clone();
                d.state = State::Sent;
                d.sent_at = Some(now);
                d.updated_at = now;
                d.claimed_at = None;
                d.error = None;
                match conversation_id {
                    Some(c) => {
                        d.conversation_id = Some(c.to_owned());
                    },
                    None => {},
                }
                let answer: Draft = d.clone();
                self.replace(i, d);
                Some(answer)
            },
        }
    }

    /// Record a failed send. The draft becomes visible again carrying the reason.
    pub fn mark_failed(&mut self, id: &str, error: &str) -> (r: Option<Draft>)
        requires
            old(self).wf(),
        ensures
            final(self).wf(),
            exists|now: i64|
                on_clock(now) && (final(self)@, found(r)) == #[trigger] old(self)@.mark_failed(
                    id@,
                    error@,
                    now,
                ),
    {
        let now: i64 = now_ms();
        self.mark_failed_at(id, error, now)
    }

    /// [`Store::mark_failed`] at the instant `now`.
    pub fn mark_failed_at(&mut self, id: &str, error: &str, now: i64) -> (r: Option<Draft>)
        requires
            old(self).wf(),
        ensures
            final(self).wf(),
            (final(self)@, found(r)) == old(self)@.mark_failed(id@, error@, now),
    {
        match self.position(id) {
            None => None,
            Some(i) => {
                let mut d: Draft = self.rows[i].clone();
                d.state = State::Failed;
                d.error = Some(error.to_owned());
                d.updated_at = now;
                d.claimed_at = None;
                let answer: Draft = d.clone();
                self.replace(i, d);
                Some(answer)
            },
        }
    }

    /// Delete one draft. Says whether there was one.
    pub fn delete(&mut self, id: &str) -> (r: bool)
        requires
            old(self).wf(),
        ensures
            final(self).wf(),
            final(self)@ == old(self)@.without(id@),
            r == (old(self)@.get(id@) is Some),
    {
        match self.position(id) {
            None => {
                proof {
                    lemma_without(self@, id@);
                    assert(self@ =~= self@.without(id@));
                }
                false
            },
            Some(i) => {
                proof {
                    lemma_without(self@, id@);
                }
                self.rows.remove(i);
                proof {
                    assert(self@.rows =~= old(self)@.rows.remove(i as int));
                }
                self.forget_state(id);
                proof {
                    assert(self@ =~= old(self)@.without(id@));
                }
                true
            },
        }
    }

    /// Delete every draft. Says how many there were.
    pub fn delete_all(&mut self) -> (n: usize)
        requires
            old(self).wf(),
        ensures
            final(self).wf(),
            final(self)@ == StoreView::nothing(old(self)@.settings),
            n == old(self)@.rows.len(),
    {
        let n: usize = self.rows.len();
        self.rows = Vec::new();
        self.unknown = Vec::new();
        proof {
            assert(self@.rows =~= Seq::empty());
        }
        n
    }

    /// The node-wide settings. Where none are kept, or none that can be read, the defaults
    /// are always a valid answer.
    pub fn settings(&self) -> (r: Settings)
        ensures
            r == self@.current_settings(),
    {
        match self.settings {
            Some(s) => s,
            None => Settings::default(),
        }
    }

    /// Keep the node-wide settings.
    pub fn save_settings(&mut self, settings: &Settings)
        requires
            old(self).wf(),
        ensures
            final(self).wf(),
            final(self)@ == (StoreView { settings: Some(*settings), ..old(self)@ }),
    {
        self.settings = Some(*settings);
    }
}

impl Store {
    /// Every draft the sidebar should show: everything except the ones already
    /// sent, newest first. `sending` counts so a draft does not blink out of
    /// the list for the second or two a dispatcher holds it.
    pub fn list_open(&self) -> (r: Vec<Draft>)
        ensures
            drafts_view(r@) == self@.open_drafts(),
    {
        let ghost pred = |d: DraftView| !(d.state is Sent);
        let mut picked: Vec<Draft> = Vec::new();
        let mut i: usize = 0;
        proof {
            reveal(Seq::filter);
            assert(drafts_view(picked@) =~= self@.rows.take(0).filter(pred));
        }
        while i < self.rows.len()
            invariant
                i <= self.rows@.len(),
                pred == (|d: DraftView| !(d.state is Sent)),
                drafts_view(picked@) == self@.rows.take(i as int).filter(pred),
            decreases self.rows.len() - i,
        {
            let ghost before = drafts_view(picked@);
            proof {
                self.lemma_filter_step(i as int, pred);
            }
            match self.rows[i].state {
                State::Sent => {},
                _ => {
                    picked.push(self.rows[i].clone());
                    proof {
                        assert(drafts_view(picked@) =~= before.push(self@.rows[i as int]));
                    }
                },
            }
            i = i + 1;
        }
        proof {
            assert(self@.rows.take(self@.rows.len() as int) =~= self@.rows);
        }
        arrange(picked, Order::Updated)
    }

    /// Recently sent drafts, newest first: the history half of the companion.
    pub fn list_sent(&self, limit: u32) -> (r: Vec<Draft>)
        ensures
            drafts_view(r@) == self@.sent_drafts(limit as nat),
    {
        let ghost pred = |d: DraftView| d.state is Sent;
        let mut picked: Vec<Draft> = Vec::new();
        let mut i: usize = 0;
        proof {
            reveal(Seq::filter);
            assert(drafts_view(picked@) =~= self@.rows.take(0).filter(pred));
        }
        while i < self.rows.len()
            invariant
                i <= self.rows@.len(),
                pred == (|d: DraftView| d.state is Sent),
                drafts_view(picked@) == self@.rows.take(i as int).filter(pred),
            decreases self.rows.len() - i,
        {
            let ghost before = drafts_view(picked@);
            proof {
                self.lemma_filter_step(i as int, pred);
            }
            match self.rows[i].state {
                State::Sent => {
                    picked.push(self.rows[i].clone());
                    proof {
                        assert(drafts_view(picked@) =~= before.push(self@.rows[i as int]));
                    }
                },
                _ => {},
            }
            i = i + 1;
        }
        proof {
            assert(self@.rows.take(self@.rows.len() as int) =~= self@.rows);
        }
        let mut out: Vec<Draft> = arrange(picked, Order::Sent);
        let ghost all = drafts_view(out@);
        out.truncate(limit as usize);
        proof {
            assert(drafts_view(out@) =~= first_of(all, limit as nat));
        }
        out
    }

    /// One more row to filter.
    proof fn lemma_filter_step(&self, i: int, pred: spec_fn(DraftView) -> bool)
        requires
            0 <= i < self@.rows.len(),
        ensures
            self@.rows.take(i + 1).filter(pred) == (if pred(self@.rows[i]) {
                self@.rows.take(i).filter(pred).push(self@.rows[i])
            } else {
                self@.rows.take(i).filter(pred)
            }),
    {
        reveal(Seq::filter);
        assert(self@.rows.take(i + 1).drop_last() =~= self@.rows.take(i));
        assert(self@.rows.take(i + 1).last() == self@.rows[i]);
    }

    /// Record that the node has been seen busy, for every armed draft waiting on it.
    ///
    /// Scoped to the armed ones so a draft armed AFTER this moment does not
    /// inherit an observation that predates it: otherwise "send when my agents
    /// finish", queued during a lull, would fire on the tail of somebody else's
    /// earlier work.
    fn latch_seen_busy(&mut self)
        requires
            old(self).wf(),
        ensures
            final(self).wf(),
            final(self)@ == old(self)@.latch(),
    {
        let ghost before = self@.rows;
        let mut i: usize = 0;
        while i < self.rows.len()
            invariant
                i <= self.rows@.len(),
                self.rows@.len() == before.len(),
                self.settings == old(self).settings,
                self.unknown == old(self).unknown,
                before == old(self)@.rows,
                forall|j: int| 0 <= j < i ==> (#[trigger] self@.rows[j]) == before[j].latched(),
                forall|j: int| i <= j < before.len() ==> (#[trigger] self@.rows[j]) == before[j],
            decreases self.rows.len() - i,
        {
            let ghost current = self@.rows;
            match self.rows[i].state {
                State::Armed => {
                    let mut d: Draft = self.rows[i].clone();
                    d.seen_busy = true;
                    let ghost dv = d@;
                    self.rows.set(i, d);
                    proof {
                        assert(current[i as int] == before[i as int]);
                        assert(dv == before[i as int].latched());
                        assert(self@.rows =~= current.update(i as int, dv));
                    }
                },
                _ => {
                    proof {
                        assert(current[i as int] == before[i as int]);
                    }
                },
            }
            i = i + 1;
        }
        proof {
            assert(self@.rows =~= old(self)@.latch().rows);
            lemma_latch(old(self)@);
        }
    }

    /// The armed drafts whose condition holds against `r`, oldest first.
    ///
    /// Oldest-first is deliberate: the queue is FIFO, so a prompt written an hour
    /// ago goes before one written a minute ago when a slot frees for both.
    pub fn ready(&mut self, r: &Readings) -> (out: Vec<Draft>)
        requires
            old(self).wf(),
        ensures
            final(self).wf(),
            final(self)@ == old(self)@.observe(r@),
            drafts_view(out@) == old(self)@.observe(r@).releasable(r@),
    {
        // Latch BEFORE evaluating, in the same pass over the same reading. An
        // `AllDone` draft needs to have seen the node busy, and a tick that observes
        // work running is exactly that observation; it also cannot fire this tick
        // (something is running), so latching first can never make a draft go early.
        match r.running {
            Some(running) => {
                if running > 0 {
                    self.latch_seen_busy();
                }
            },
            None => {},
        }
        let ghost pred = |d: DraftView| releases(d, r@);
        let mut picked: Vec<Draft> = Vec::new();
        let mut i: usize = 0;
        proof {
            reveal(Seq::filter);
            assert(drafts_view(picked@) =~= self@.rows.take(0).filter(pred));
        }
        while i < self.rows.len()
            invariant
                i <= self.rows@.len(),
                self.wf(),
                self@ == old(self)@.observe(r@),
                pred == (|d: DraftView| releases(d, r@)),
                drafts_view(picked@) == self@.rows.take(i as int).filter(pred),
            decreases self.rows.len() - i,
        {
            let ghost before = drafts_view(picked@);
            proof {
                self.lemma_filter_step(i as int, pred);
            }
            let d: &Draft = &self.rows[i];
            let go: bool = match d.state {
                State::Armed => d.trigger.is_satisfied(r, d.seen_busy),
                _ => false,
            };
            if go {
                picked.push(d.clone());
                proof {
                    assert(drafts_view(picked@) =~= before.push(self@.rows[i as int]));
                }
            }
            i = i + 1;
        }
        proof {
            assert(self@.rows.take(self@.rows.len() as int) =~= self@.rows);
        }
        arrange(picked, Order::Created)
    }
}

/// One row of the table as it is kept: names in the place of the source and the state, and
/// a condition that may not have been readable.
#[derive(Debug, Clone)]
pub struct DraftRecord {
    pub id: String,
    pub text: String,
    pub conversation_id: Option<String>,
    pub agent_id: Option<String>,
    pub model: Option<String>,
    pub folder_path: Option<String>,
    pub source: String,
    pub state: String,
    pub trigger: Option<Trigger>,
    pub error: Option<String>,
    pub created_at: i64,
    pub updated_at: i64,
    pub claimed_at: Option<i64>,
    pub sent_at: Option<i64>,
    pub seen_busy: Option<i64>,
}

impl DraftRecord {
    /// The draft that the row stands for. An unreadable condition degrades to `Manual`: the
    /// draft's TEXT is the irreplaceable part, and losing a condition is recoverable by
    /// re-arming it. A latch that is not there is not set.
    pub open spec fn draft(self) -> DraftView {
        DraftView {
            id: self.id@,
            text: self.text@,
            conversation_id: opt_view(self.conversation_id),
            agent_id: opt_view(self.agent_id),
            model: opt_view(self.model),
            folder_path: opt_view(self.folder_path),
            source: Source::named(self.source@),
            state: State::named(self.state@),
            trigger: match self.trigger {
                Some(t) => t@,
                None => TriggerView::Manual,
            },
            error: opt_view(self.error),
            seen_busy: match self.seen_busy {
                Some(n) => n != 0,
                None => false,
            },
            created_at: self.created_at,
            updated_at: self.updated_at,
            claimed_at: self.claimed_at,
            sent_at: self.sent_at,
        }
    }
}

/// Whether the row is one to keep of that draft, whatever it has in the place of the state.
pub open spec fn describes(r: DraftRecord, d: DraftView) -> bool {
    &&& r.id@ == d.id
    &&& r.text@ == d.text
    &&& opt_view(r.conversation_id) == d.conversation_id
    &&& opt_view(r.agent_id) == d.agent_id
    &&& opt_view(r.model) == d.model
    &&& opt_view(r.folder_path) == d.folder_path
    &&& r.source@ == d.source.name()
    &&& r.trigger matches Some(t) && t@ == d.trigger
    &&& opt_view(r.error) == d.error
    &&& r.created_at == d.created_at
    &&& r.updated_at == d.updated_at
    &&& r.claimed_at == d.claimed_at
    &&& r.sent_at == d.sent_at
    &&& r.seen_busy == Some(if d.seen_busy {
        1i64
    } else {
        0i64
    })
}

/// Whether the row is the one to keep of that draft.
pub open spec fn records(r: DraftRecord, d: DraftView) -> bool {
    describes(r, d) && r.state@ == d.state.name()
}

/// The draft that a row of the table stands for.
pub fn row_to_draft(row: &DraftRecord) -> (d: Draft)
    ensures
        d@ == row.draft(),
{
    Draft {
        id: row.id.clone(),
        text: row.text.clone(),
        conversation_id: copy_opt(&row.conversation_id),
        agent_id: copy_opt(&row.agent_id),
        model: copy_opt(&row.model),
        folder_path: copy_opt(&row.folder_path),
        source: Source::parse(row.source.as_str()),
        state: State::parse(row.state.as_str()),
        trigger: match &row.trigger {
            Some(t) => t.clone(),
            None => Trigger::Manual,
        },
        error: copy_opt(&row.error),
        created_at: row.created_at,
        updated_at: row.updated_at,
        seen_busy: match row.seen_busy {
            Some(n) => n != 0,
            None => false,
        },
        claimed_at: row.claimed_at,
        sent_at: row.sent_at,
    }
}

/// The row to keep of a draft.
pub fn draft_to_row(d: Draft) -> (row: DraftRecord)
    ensures
        records(row, d@),
{
    DraftRecord {
        id: d.id,
        text: d.text,
        conversation_id: d.conversation_id,
        agent_id: d.agent_id,
        model: d.model,
        folder_path: d.folder_path,
        source: d.source.as_str().to_owned(),
        state: d.state.as_str().to_owned(),
        trigger: Some(d.trigger),
        error: d.error,
        created_at: d.created_at,
        updated_at: d.updated_at,
        claimed_at: d.claimed_at,
        sent_at: d.sent_at,
        seen_busy: Some(if d.seen_busy { 1 } else { 0 }),
    }
}

/// What is read back of a draft is the draft, also where its row has another name in the place
/// of the state that stands for the same.
pub proof fn record_round_trip(row: DraftRecord, d: DraftView)
    requires
        describes(row, d),
        State::named(row.state@) == d.state,
    ensures
        row.draft() == d,
{
    crate::models::source_name_round_trip(d.source);
    assert(row.draft() =~= d);
}

/// `s` is what the rows of the table stand for.
pub open spec fn stands_for(rows: Seq<DraftRecord>, s: StoreView) -> bool {
    &&& s.rows == Seq::new(rows.len(), |i: int| rows[i].draft())
    &&& forall|i: int|
        0 <= i < rows.len() ==> (s.unknown_states.dom().contains((#[trigger] rows[i]).id@)
            <==> !State::is_name(rows[i].state@))
    &&& forall|i: int|
        0 <= i < rows.len() && !State::is_name((#[trigger] rows[i]).state@)
            ==> s.unknown_states[rows[i].id@] == rows[i].state@
}

impl Store {
    /// The outbox that the rows and the settings of the table stand for. No two rows have
    /// the same id.
    pub fn load(rows: &Vec<DraftRecord>, settings: Option<Settings>) -> (s: Store)
        requires
            forall|i: int, j: int|
                0 <= i < j < rows@.len() ==> (#[trigger] rows@[i]).id@ != (#[trigger] rows@[j]).id@,
        ensures
            s.wf(),
            stands_for(rows@, s@),
            s@.settings == settings,
    {
        let ghost all = Seq::new(rows@.len(), |i: int| rows@[i].draft());
        let mut drafts: Vec<Draft> = Vec::new();
        let mut unknown: Vec<(String, String)> = Vec::new();
        let mut i: usize = 0;
        while i < rows.len()
            invariant
                i <= rows@.len(),
                drafts@.len() == i,
                all == Seq::new(rows@.len(), |k: int| rows@[k].draft()),
                forall|a: int, b: int|
                    0 <= a < b < rows@.len() ==> (#[trigger] rows@[a]).id@ != (
                    #[trigger] rows@[b]).id@,
                forall|j: int| 0 <= j < i ==> (#[trigger] drafts@[j])@ == all[j],
                forall|id: Seq<char>| #[trigger]
                    names_of(unknown@).dom().contains(id) <==> exists|j: int|
                        0 <= j < i && (#[trigger] rows@[j]).id@ == id && !State::is_name(
                            rows@[j].state@,
                        ),
                forall|j: int|
                    0 <= j < i && !State::is_name((#[trigger] rows@[j]).state@) ==> names_of(
                        unknown@,
                    )[rows@[j].id@] == rows@[j].state@,
            decreases rows.len() - i,
        {
            let ghost before = unknown@;
            let draft: Draft = row_to_draft(&rows[i]);
            if !same(draft.state.as_str(), rows[i].state.as_str()) {
                unknown.push((rows[i].id.clone(), rows[i].state.clone()));
                proof {
                    assert(unknown@.drop_last() =~= before);
                    assert(names_of(unknown@) == names_of(before).insert(
                        rows@[i as int].id@,
                        rows@[i as int].state@,
                    ));
                }
            }
            drafts.push(draft);
            proof {
                let names = names_of(unknown@);
                assert forall|id: Seq<char>| #[trigger] names.dom().contains(id) <==> exists|j: int|
                    0 <= j < i + 1 && (#[trigger] rows@[j]).id@ == id && !State::is_name(
                        rows@[j].state@,
                    ) by {
                    if names.dom().contains(id) {
                        if names_of(before).dom().contains(id) {
                            let j = choose|j: int|
                                0 <= j < i && (#[trigger] rows@[j]).id@ == id && !State::is_name(
                                    rows@[j].state@,
                                );
                            assert(rows@[j].id@ == id);
                        } else {
                            assert(rows@[i as int].id@ == id);
                        }
                    }
                }
            }
            i = i + 1;
        }
        let s = Store { rows: drafts, unknown, settings };
        proof {
            assert(s@.rows =~= all);
            assert forall|a: int, b: int| 0 <= a < b < s@.rows.len() implies (
            #[trigger] s@.rows[a]).id != (#[trigger] s@.rows[b]).id by {
                assert(rows@[a].id@ != rows@[b].id@);
            }
            assert forall|j: int| 0 <= j < rows@.len() implies (
            s@.unknown_states.dom().contains((#[trigger] rows@[j]).id@) <==> !State::is_name(
                rows@[j].state@,
            )) by {
                if s@.unknown_states.dom().contains(rows@[j].id@) {
                    let k = choose|k: int|
                        0 <= k < rows@.len() && (#[trigger] rows@[k]).id@ == rows@[j].id@
                            && !State::is_name(rows@[k].state@);
                    if k < j {
                        assert(rows@[k].id@ != rows@[j].id@);
                    } else if j < k {
                        assert(rows@[j].id@ != rows@[k].id@);
                    }
                }
            }
            assert forall|id: Seq<char>| #[trigger]
                s@.unknown_states.dom().contains(id) implies s@.get(id) is Some && s@.get(
                id,
            )->0.state is Draft && !State::is_name(s@.unknown_states[id]) by {
                let k = choose|k: int|
                    0 <= k < rows@.len() && (#[trigger] rows@[k]).id@ == id && !State::is_name(
                        rows@[k].state@,
                    );
                assert(s@.rows[k].id == id);
                lemma_place(s@.rows, id, k);
            }
        }
        s
    }

    /// The rows of the table that the outbox stands for.
    pub fn rows(&self) -> (r: Vec<DraftRecord>)
        ensures
            r@.len() == self@.rows.len(),
            forall|i: int|
                0 <= i < r@.len() ==> describes(#[trigger] r@[i], self@.rows[i]) && r@[i].state@
                    == self@.state_text(self@.rows[i]),
    {
        let mut r: Vec<DraftRecord> = Vec::new();
        let mut i: usize = 0;
        while i < self.rows.len()
            invariant
                i <= self.rows@.len(),
                r@.len() == i,
                forall|j: int|
                    0 <= j < i ==> describes(#[trigger] r@[j], self@.rows[j]) && r@[j].state@
                        == self@.state_text(self@.rows[j]),
            decreases self.rows.len() - i,
        {
            let mut row: DraftRecord = draft_to_row(self.rows[i].clone());
            match self.unknown_state(row.id.as_str()) {
                Some(name) => {
                    row.state = name;
                },
                None => {},
            }
            r.push(row);
            i = i + 1;
        }
        r
    }
}

} // verus!
