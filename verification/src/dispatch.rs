//! The dispatcher: what the loop that sends queued drafts decides.
//!
//! A draft armed with "send when my weekly limit resets" has to go out at whatever hour
//! that happens, which is very often an hour when no desktop is running. So the process
//! that keeps the outbox sends, through two capabilities of Core: `node.readings` for the
//! live facts and `chat.startTurn` to post the turn.
//!
//! One tick is a short conversation with Core. [`step`] takes what was just heard and gives
//! what to do next; whoever runs the loop does it and comes back with the next event.

use vstd::prelude::*;
use vstd::string::*;

use crate::auth::{configured, configured_value, parse_port, port_of};
use crate::models::{
    usage_view, Draft, DraftView, Readings, ReadingsView, State, Trigger, TriggerView,
};
use crate::number::{decimal, write_decimal};
use crate::percent::Percent;
use crate::store::{drafts_view, found, now_ms, on_clock, Store, StoreView, CLAIM_TIMEOUT_MS};
use crate::text::{chars_of, join, opt_view, str_view, views};

verus! {

/// `a` comes before `b` in the order of their characters.
pub open spec fn precedes(a: Seq<char>, b: Seq<char>) -> bool
    decreases a.len(),
{
    if b.len() == 0 {
        false
    } else if a.len() == 0 {
        true
    } else if a.first() == b.first() {
        precedes(a.drop_first(), b.drop_first())
    } else {
        a.first() < b.first()
    }
}

/// Up to `i` the same, and then decided.
proof fn lemma_precedes_at(a: Seq<char>, b: Seq<char>, i: int)
    requires
        0 <= i <= a.len(),
        i <= b.len(),
        forall|j: int| 0 <= j < i ==> a[j] == b[j],
    ensures
        precedes(a, b) == precedes(a.skip(i), b.skip(i)),
    decreases i,
{
    if i == 0 {
        assert(a.skip(0) =~= a);
        assert(b.skip(0) =~= b);
    } else {
        lemma_precedes_at(a.drop_first(), b.drop_first(), i - 1);
        assert(a.drop_first().skip(i - 1) =~= a.skip(i));
        assert(b.drop_first().skip(i - 1) =~= b.skip(i));
    }
}

/// Of two texts one comes first, or they are the same.
pub proof fn precedes_is_total(a: Seq<char>, b: Seq<char>)
    ensures
        precedes(a, b) || precedes(b, a) || a == b,
    decreases a.len(),
{
    if a.len() > 0 && b.len() > 0 {
        if a.first() == b.first() {
            precedes_is_total(a.drop_first(), b.drop_first());
            if a.drop_first() == b.drop_first() {
                assert(a =~= seq![a.first()] + a.drop_first());
                assert(b =~= seq![b.first()] + b.drop_first());
            }
        }
    } else if a.len() == 0 && b.len() == 0 {
        assert(a =~= b);
    }
}

/// What comes before something that comes before a third comes before the third.
pub proof fn precedes_is_transitive(a: Seq<char>, b: Seq<char>, c: Seq<char>)
    requires
        precedes(a, b),
        precedes(b, c),
    ensures
        precedes(a, c),
    decreases a.len(),
{
    if a.len() > 0 {
        if a.first() == b.first() && b.first() == c.first() {
            precedes_is_transitive(a.drop_first(), b.drop_first(), c.drop_first());
        }
    }
}

/// Whether `a` comes before `b`.
fn comes_before(a: &str, b: &str) -> (r: bool)
    ensures
        r == precedes(a@, b@),
{
    let left: Vec<char> = chars_of(a);
    let right: Vec<char> = chars_of(b);
    let mut i: usize = 0;
    while i < left.len() && i < right.len()
        invariant
            i <= left@.len(),
            i <= right@.len(),
            left@ == a@,
            right@ == b@,
            forall|j: int| 0 <= j < i ==> left@[j] == right@[j],
        decreases left.len() - i,
    {
        if left[i] != right[i] {
            proof {
                lemma_precedes_at(a@, b@, i as int);
            }
            return left[i] < right[i];
        }
        i = i + 1;
    }
    proof {
        lemma_precedes_at(a@, b@, i as int);
    }
    i < right.len()
}

/// Each text before the next.
pub open spec fn ascending(ids: Seq<Seq<char>>) -> bool {
    forall|i: int, j: int|
        0 <= i < j < ids.len() ==> precedes(#[trigger] ids[i], #[trigger] ids[j])
}

/// Put `id` among the others unless it is there.
fn add_id(ids: &mut Vec<String>, id: &str)
    requires
        ascending(views(old(ids)@)),
    ensures
        ascending(views(final(ids)@)),
        forall|x: Seq<char>|
            #[trigger] views(final(ids)@).contains(x) <==> views(old(ids)@).contains(x) || x == id@,
{
    let ghost before = views(ids@);
    let mut i: usize = 0;
    while i < ids.len() && comes_before(ids[i].as_str(), id)
        invariant
            i <= ids@.len(),
            before == views(ids@),
            ascending(before),
            forall|j: int| 0 <= j < i ==> precedes(#[trigger] before[j], id@),
        decreases ids.len() - i,
    {
        i = i + 1;
    }
    if i < ids.len() && crate::text::same(ids[i].as_str(), id) {
        proof {
            assert(before[i as int] == id@);
            assert(before.contains(id@));
        }
        return;
    }
    ids.insert(i, id.to_owned());
    proof {
        let after = views(ids@);
        assert(after =~= before.insert(i as int, id@));
        if i < before.len() {
            precedes_is_total(before[i as int], id@);
        }
        assert forall|a: int, b: int| 0 <= a < b < after.len() implies precedes(
            #[trigger] after[a],
            #[trigger] after[b],
        ) by {
            let a0 = if a < i { a } else { a - 1 };
            let b0 = if b < i { b } else { b - 1 };
            if a == i {
                assert(after[b] == before[b0]);
                if b0 > i {
                    assert(precedes(before[i as int], before[b0]));
                    precedes_is_transitive(id@, before[i as int], before[b0]);
                }
            } else if b == i {
                assert(after[a] == before[a]);
            } else {
                assert(after[a] == before[a0]);
                assert(after[b] == before[b0]);
                assert(precedes(before[a0], before[b0]));
            }
        }
        assert forall|x: Seq<char>| #[trigger] after.contains(x) <==> before.contains(x) || x
            == id@ by {
            if after.contains(x) {
                let k = choose|k: int| 0 <= k < after.len() && after[k] == x;
                if k < i {
                    assert(before[k] == x);
                } else if k > i {
                    assert(before[k - 1] == x);
                }
            }
            if before.contains(x) {
                let k = choose|k: int| 0 <= k < before.len() && before[k] == x;
                if k < i {
                    assert(after[k] == x);
                } else {
                    assert(after[k + 1] == x);
                }
            }
            if x == id@ {
                assert(after[i as int] == x);
            }
        }
    }
}

/// The draft waits for that agent's usage window.
pub open spec fn watches(d: DraftView, agent_id: Seq<char>) -> bool {
    d.state is Armed && match d.trigger {
        TriggerView::UsageReset { agent_id: a, .. } => a == agent_id,
        _ => false,
    }
}

/// Some draft is armed.
pub open spec fn some_armed(drafts: Seq<DraftView>) -> bool {
    exists|i: int| 0 <= i < drafts.len() && (#[trigger] drafts[i]).state is Armed
}

/// `ids` are the agents whose usage windows the armed drafts wait for, each once, in order.
pub open spec fn watched(drafts: Seq<DraftView>, ids: Seq<Seq<char>>) -> bool {
    &&& ascending(ids)
    &&& forall|id: Seq<char>|
        #[trigger] ids.contains(id) <==> exists|i: int|
            0 <= i < drafts.len() && watches(#[trigger] drafts[i], id)
}

/// The agents whose usage is to be asked for, or nothing where no draft is armed. An outbox
/// holding only idle drafts asks Core for nothing, and only an armed `usage_reset` draft
/// costs a vendor round-trip.
pub fn plan(store: &Store) -> (r: Option<Vec<String>>)
    ensures
        match r {
            Some(ids) => some_armed(store@.open_drafts()) && watched(
                store@.open_drafts(),
                views(ids@),
            ),
            None => !some_armed(store@.open_drafts()),
        },
{
    let open: Vec<Draft> = store.list_open();
    let ghost drafts = store@.open_drafts();
    let mut armed: bool = false;
    let mut ids: Vec<String> = Vec::new();
    let mut i: usize = 0;
    while i < open.len()
        invariant
            i <= open@.len(),
            drafts == drafts_view(open@),
            armed <==> exists|j: int| 0 <= j < i && (#[trigger] drafts[j]).state is Armed,
            ascending(views(ids@)),
            forall|id: Seq<char>|
                #[trigger] views(ids@).contains(id) <==> exists|j: int|
                    0 <= j < i && watches(#[trigger] drafts[j], id),
        decreases open.len() - i,
    {
        let ghost before = views(ids@);
        let d: &Draft = &open[i];
        proof {
            assert(drafts[i as int] == d@);
        }
        match d.state {
            State::Armed => {
                armed = true;
                match &d.trigger {
                    Trigger::UsageReset { agent_id, .. } => {
                        add_id(&mut ids, agent_id.as_str());
                        proof {
                            assert(watches(drafts[i as int], agent_id@));
                        }
                    },
                    _ => {},
                }
            },
            _ => {},
        }
        proof {
            assert forall|id: Seq<char>| #[trigger] views(ids@).contains(id) <==> exists|j: int|
                0 <= j < i + 1 && watches(#[trigger] drafts[j], id) by {
                if exists|j: int| 0 <= j < i + 1 && watches(#[trigger] drafts[j], id) {
                    let j = choose|j: int| 0 <= j < i + 1 && watches(#[trigger] drafts[j], id);
                    if j < i {
                        assert(before.contains(id));
                    } else {
                        assert(watches(drafts[i as int], id));
                    }
                }
                if views(ids@).contains(id) {
                    if before.contains(id) {
                        let j = choose|j: int| 0 <= j < i && watches(#[trigger] drafts[j], id);
                        assert(watches(drafts[j], id));
                    } else {
                        assert(watches(drafts[i as int], id));
                    }
                }
            }
        }
        i = i + 1;
    }
    if armed {
        Some(ids)
    } else {
        None
    }
}

/// What Core reports of the node: of each agent what could be read of it.
#[derive(Debug)]
pub struct NodeReport {
    pub running: Option<u64>,
    pub usage: Vec<(Option<String>, Option<Percent>)>,
}

/// The rows that name an agent and give its percentage.
pub open spec fn reported_usage(rows: Seq<(Option<String>, Option<Percent>)>) -> Seq<
    (Seq<char>, Percent),
>
    decreases rows.len(),
{
    if rows.len() == 0 {
        Seq::empty()
    } else {
        let before = reported_usage(rows.drop_last());
        match rows.last() {
            (Some(agent_id), Some(percent)) => before.push((agent_id@, percent)),
            _ => before,
        }
    }
}

impl NodeReport {
    /// The readings that the report gives. What Core did not report stays UNKNOWN, which
    /// holds the draft: never zero, which would read as "the node is idle" and drain the
    /// queue. A run count too large to hold is the largest, for the same reason.
    pub open spec fn readings(self, now: i64) -> ReadingsView {
        ReadingsView {
            running: match self.running {
                Some(n) => Some(if n <= u32::MAX {
                    n as u32
                } else {
                    u32::MAX
                }),
                None => None,
            },
            usage: reported_usage(self.usage@),
            now_ms: now,
        }
    }

    /// The readings that the report gives.
    pub fn into_readings(self, now: i64) -> (r: Readings)
        ensures
            r@ == self.readings(now),
    {
        let running: Option<u32> = match self.running {
            Some(n) => Some(if n <= u32::MAX as u64 { n as u32 } else { u32::MAX }),
            None => None,
        };
        let mut usage: Vec<(String, Percent)> = Vec::new();
        let mut i: usize = 0;
        let ghost all = self.usage@;
        proof {
            assert(usage_view(usage@) =~= reported_usage(all.take(0)));
        }
        while i < self.usage.len()
            invariant
                i <= self.usage@.len(),
                all == self.usage@,
                usage_view(usage@) == reported_usage(all.take(i as int)),
            decreases self.usage.len() - i,
        {
            let ghost before = usage_view(usage@);
            proof {
                assert(all.take(i + 1).drop_last() =~= all.take(i as int));
                assert(all.take(i + 1).last() == all[i as int]);
            }
            match &self.usage[i].0 {
                Some(agent_id) => match self.usage[i].1 {
                    Some(percent) => {
                        usage.push((agent_id.clone(), percent));
                        proof {
                            assert(usage_view(usage@) =~= before.push((agent_id@, percent)));
                        }
                    },
                    None => {},
                },
                None => {},
            }
            i = i + 1;
        }
        proof {
            assert(all.take(all.len() as int) =~= all);
        }
        Readings { running, usage, now_ms: now }
    }
}

/// What a release does to the outbox and which draft it takes: the node is observed, and the
/// first of the drafts that may go out is claimed. Only one, since every draft is judged
/// against the SAME reading: ten drafts armed at "below 3" would all fire off one
/// observation of "2 running".
pub open spec fn release_result(s: StoreView, r: ReadingsView, now: i64) -> (
    StoreView,
    Option<DraftView>,
) {
    let seen = s.observe(r);
    let queue = seen.releasable(r);
    if queue.len() == 0 {
        (seen, None)
    } else {
        seen.claim(queue.first().id, now)
    }
}

/// Claim the draft to send on these readings. Claimed BEFORE it is sent: the desktop can
/// dispatch too, and exactly one of them wins the draft.
pub fn release(store: &mut Store, r: &Readings) -> (d: Option<Draft>)
    requires
        old(store).wf(),
    ensures
        final(store).wf(),
        exists|now: i64|
            on_clock(now) && (final(store)@, found(d)) == #[trigger] release_result(
                old(store)@,
                r@,
                now,
            ),
{
    let ghost before = old(store)@;
    match next_id(store, r) {
        Some(id) => {
            let now: i64 = now_ms();
            let d: Option<Draft> = store.claim_at(id.as_str(), now);
            proof {
                assert((store@, found(d)) == release_result(before, r@, now));
            }
            d
        },
        None => {
            proof {
                assert((store@, found(None)) == release_result(before, r@, 0));
            }
            None
        },
    }
}

/// [`release`] at the instant `now`.
pub fn release_at(store: &mut Store, r: &Readings, now: i64) -> (d: Option<Draft>)
    requires
        old(store).wf(),
        now >= i64::MIN + CLAIM_TIMEOUT_MS,
    ensures
        final(store).wf(),
        (final(store)@, found(d)) == release_result(old(store)@, r@, now),
{
    match next_id(store, r) {
        Some(id) => store.claim_at(id.as_str(), now),
        None => None,
    }
}

/// The draft that goes next on these readings.
fn next_id(store: &mut Store, r: &Readings) -> (id: Option<String>)
    requires
        old(store).wf(),
    ensures
        final(store).wf(),
        final(store)@ == old(store)@.observe(r@),
        opt_view(id) == (if final(store)@.releasable(r@).len() == 0 {
            None
        } else {
            Some(final(store)@.releasable(r@).first().id)
        }),
{
    let ready: Vec<Draft> = store.ready(r);
    if ready.len() == 0 {
        None
    } else {
        proof {
            assert(drafts_view(ready@).first() == ready@[0]@);
        }
        Some(ready[0].id.clone())
    }
}

/// A message to post.
#[derive(Debug)]
pub struct Turn {
    pub text: String,
    pub agent_id: Option<String>,
    pub conversation_id: Option<String>,
    pub model: Option<String>,
}

/// The turn is the one that the draft asks for.
pub open spec fn turn_of(t: Turn, d: DraftView) -> bool {
    &&& t.text@ == d.text
    &&& opt_view(t.agent_id) == d.agent_id
    &&& opt_view(t.conversation_id) == d.conversation_id
    &&& opt_view(t.model) == d.model
}

/// Where a tick stands.
#[derive(Debug)]
pub enum Phase {
    /// Between ticks.
    Idle,
    /// Core was asked for readings.
    Reading,
    /// Core was asked to post the draft with that id.
    Sending { id: String },
}

/// What was just heard.
#[derive(Debug)]
pub enum Event {
    /// It is time for a tick.
    Wake,
    /// What Core reports of the node, or why it does not.
    Report(Result<NodeReport, String>),
    /// The conversation that the message landed in, where Core names one, or why it was
    /// not posted. A message that waits for approval counts as posted: the send now belongs
    /// to the Approvals inbox.
    Posted(Result<Option<String>, String>),
}

/// What to do next.
#[derive(Debug)]
pub enum Action {
    /// Ask Core for readings: the runs, and the usage of these agents.
    Ask { agent_ids: Vec<String> },
    /// Ask Core to post the message.
    Post { turn: Turn },
    /// Nothing more this tick.
    Rest,
    /// Nothing more this tick, which failed.
    Fail { error: String },
}

/// What follows a wake-up.
pub open spec fn woken(s: StoreView, phase: Phase, action: Action) -> bool {
    if some_armed(s.open_drafts()) {
        phase is Reading && match action {
            Action::Ask { agent_ids } => watched(s.open_drafts(), views(agent_ids@)),
            _ => false,
        }
    } else {
        phase is Idle && action is Rest
    }
}

/// What follows a release.
pub open spec fn released(d: Option<DraftView>, phase: Phase, action: Action) -> bool {
    match d {
        Some(d) => match (phase, action) {
            (Phase::Sending { id }, Action::Post { turn }) => id@ == d.id && turn_of(turn, d),
            _ => false,
        },
        None => phase is Idle && action is Rest,
    }
}

/// What follows a report: one that did not come fails the tick and changes nothing.
pub open spec fn reported(
    s: StoreView,
    report: Result<NodeReport, String>,
    at: i64,
    now: i64,
    after: StoreView,
    phase: Phase,
    action: Action,
) -> bool {
    match report {
        Ok(report) => {
            let (kept, d) = release_result(s, report.readings(at), now);
            after == kept && released(d, phase, action)
        },
        Err(e) => after == s && phase is Idle && match action {
            Action::Fail { error } => error@ == e@,
            _ => false,
        },
    }
}

/// What the answer to a post leaves in the outbox: the draft is sent, or it is back, visible,
/// carrying the reason.
pub open spec fn concluded(
    s: StoreView,
    id: Seq<char>,
    answer: Result<Option<String>, String>,
    now: i64,
) -> StoreView {
    match answer {
        Ok(conversation_id) => s.mark_sent(id, opt_view(conversation_id), now).0,
        Err(e) => s.mark_failed(id, e@, now).0,
    }
}

/// What follows something that was heard, where the readings are of the instant `at` and the
/// outbox is changed at the instant `now`. Anything heard out of turn ends the tick and
/// changes nothing.
pub open spec fn follows_at(
    s: StoreView,
    phase: Phase,
    event: Event,
    at: i64,
    now: i64,
    after: StoreView,
    next: Phase,
    action: Action,
) -> bool {
    match (phase, event) {
        (Phase::Idle, Event::Wake) => after == s && woken(s, next, action),
        (Phase::Reading, Event::Report(report)) => reported(
            s,
            report,
            at,
            now,
            after,
            next,
            action,
        ),
        (Phase::Sending { id }, Event::Posted(answer)) => next is Idle && action is Rest && after
            == concluded(s, id@, answer, now),
        _ => after == s && next is Idle && action is Rest,
    }
}

/// What follows something that was heard.
pub open spec fn follows(
    s: StoreView,
    phase: Phase,
    event: Event,
    after: StoreView,
    next: Phase,
    action: Action,
) -> bool {
    exists|at: i64, now: i64|
        on_clock(at) && on_clock(now) && #[trigger] follows_at(
            s,
            phase,
            event,
            at,
            now,
            after,
            next,
            action,
        )
}

/// One step of a tick. The clock is read only where something depends on it.
pub fn step(store: &mut Store, phase: Phase, event: Event) -> (r: (Phase, Action))
    requires
        old(store).wf(),
    ensures
        final(store).wf(),
        follows(old(store)@, phase, event, final(store)@, r.0, r.1),
{
    let mut at: i64 = 0;
    let mut now: i64 = 0;
    match (&phase, &event) {
        (Phase::Reading, Event::Report(Ok(_))) => {
            at = now_ms();
            now = now_ms();
        },
        (Phase::Sending { .. }, Event::Posted(_)) => {
            now = now_ms();
        },
        _ => {},
    }
    step_at(store, phase, event, at, now)
}

/// [`step`] where the readings are of the instant `at` and the outbox is changed at the
/// instant `now`.
pub fn step_at(store: &mut Store, phase: Phase, event: Event, at: i64, now: i64) -> (r: (
    Phase,
    Action,
))
    requires
        old(store).wf(),
        now >= i64::MIN + CLAIM_TIMEOUT_MS,
    ensures
        final(store).wf(),
        follows_at(old(store)@, phase, event, at, now, final(store)@, r.0, r.1),
{
    match (phase, event) {
        (Phase::Idle, Event::Wake) => match plan(store) {
            Some(agent_ids) => (Phase::Reading, Action::Ask { agent_ids }),
            None => (Phase::Idle, Action::Rest),
        },
        (Phase::Reading, Event::Report(report)) => match report {
            Ok(report) => {
                let readings: Readings = report.into_readings(at);
                match release_at(store, &readings, now) {
                    Some(d) => {
                        let turn: Turn = Turn {
                            text: d.text,
                            agent_id: d.agent_id,
                            conversation_id: d.conversation_id,
                            model: d.model,
                        };
                        (Phase::Sending { id: d.id }, Action::Post { turn })
                    },
                    None => (Phase::Idle, Action::Rest),
                }
            },
            Err(e) => (Phase::Idle, Action::Fail { error: e }),
        },
        (Phase::Sending { id }, Event::Posted(answer)) => {
            match &answer {
                Ok(Some(c)) => {
                    store.mark_sent_at(id.as_str(), Some(c.as_str()), now);
                },
                Ok(None) => {
                    store.mark_sent_at(id.as_str(), None, now);
                },
                Err(e) => {
                    store.mark_failed_at(id.as_str(), e.as_str(), now);
                },
            }
            (Phase::Idle, Action::Rest)
        },
        _ => (Phase::Idle, Action::Rest),
    }
}

/// Everything needed to call Core back.
#[derive(Debug)]
pub struct HostCall {
    pub base: String,
    pub plugin_id: String,
    pub token: String,
}

/// Where Core listens on this machine.
pub open spec fn core_base(port: u16) -> Seq<char> {
    "http://127.0.0.1:"@ + decimal(port as nat)
}

impl HostCall {
    /// The way to call Core back that the environment gives: a token and a plugin id that
    /// are not empty, and Core's port. `None` when this process was not spawned by Core (a
    /// standalone run), in which case armed drafts wait.
    pub fn from_vars(
        token: Option<String>,
        plugin_id: Option<String>,
        port: Option<String>,
    ) -> (r: Option<HostCall>)
        ensures
            match (
                configured(opt_view(token)),
                configured(opt_view(plugin_id)),
                port_of(opt_view(port)),
            ) {
                (Some(t), Some(id), Some(p)) => match r {
                    Some(h) => h.token@ == t && h.plugin_id@ == id && h.base@ == core_base(p),
                    None => false,
                },
                _ => r is None,
            },
    {
        let token: String = match configured_value(token) {
            Some(t) => t,
            None => {
                return None;
            },
        };
        let plugin_id: String = match configured_value(plugin_id) {
            Some(p) => p,
            None => {
                return None;
            },
        };
        let parsed: Option<u16> = match &port {
            Some(p) => parse_port(Some(p.as_str())),
            None => None,
        };
        let port: u16 = match parsed {
            Some(p) => p,
            None => {
                return None;
            },
        };
        let mut base: String = "http://127.0.0.1:".to_owned();
        base.append(write_decimal(port as u64).as_str());
        Some(HostCall { base, plugin_id, token })
    }

    /// Where a capability of Core is called.
    pub fn url(&self, cap: &str) -> (r: String)
        ensures
            r@ == self.base@ + "/api/host/capability/"@ + cap@,
    {
        join(self.base.as_str(), "/api/host/capability/", cap)
    }

    /// What goes into the `authorization` header.
    pub fn authorization(&self) -> (r: String)
        ensures
            r@ == "Bearer "@ + self.token@,
    {
        let mut r: String = "Bearer ".to_owned();
        r.append(self.token.as_str());
        r
    }
}

/// What is told of a call that did not reach Core.
pub fn core_unreachable(error: &str) -> (r: String)
    ensures
        r@ == "could not reach Core: "@ + error@,
{
    let mut r: String = "could not reach Core: ".to_owned();
    r.append(error);
    r
}

/// What is told of a call that Core refused.
pub open spec fn refused_line(cap: Seq<char>, error: Option<Seq<char>>) -> Seq<char> {
    cap + ": "@ + match error {
        Some(e) => e,
        None => "call refused"@,
    }
}

/// Why a call failed, where it did: Core answered with another status than success. The
/// message is fit to show the user on a failed draft.
pub fn refused_call(cap: &str, success: bool, error: Option<&str>) -> (r: Option<String>)
    ensures
        opt_view(r) == (if success {
            None
        } else {
            Some(refused_line(cap@, str_view(error)))
        }),
{
    if success {
        return None;
    }
    let message: &str = match error {
        Some(e) => e,
        None => "call refused",
    };
    Some(join(cap, ": ", message))
}

} // verus!
