//! The draft vocabulary: what a draft is, what it can be waiting for, and the
//! node-wide settings that decide when one is created without being asked for.
//!
//! Everything here is data. The decision "may this draft go out now" lives in
//! [`Trigger::is_satisfied`] and is a pure function of the draft plus a
//! [`Readings`] snapshot.

use vstd::prelude::*;
use vstd::string::*;

use crate::number::{decimal, write_decimal};
use crate::percent::Percent;
use crate::text::{
    blank, chars_of, copy_opt, is_blank, join, opt_view, pieces, same, split_all, text_of, trim,
    trimmed, views,
};

verus! {

/// Where a draft came from. Kept because it changes how the row should read: text
/// the user abandoned is not the same thing as a prompt they deliberately queued.
#[derive(Debug, Clone, Copy, PartialEq, Eq, Structural)]
pub enum Source {
    /// Composer text the user walked away from without sending.
    ComposerAutosave,
    /// Written directly in the Drafts companion.
    Manual,
    /// A send that was turned into a draft because the node was already at its
    /// concurrency ceiling.
    AutoQueue,
}

impl Source {
    /// The name that stands for the source in a record.
    pub open spec fn name(self) -> Seq<char> {
        match self {
            Source::ComposerAutosave => "composer-autosave"@,
            Source::Manual => "manual"@,
            Source::AutoQueue => "auto-queue"@,
        }
    }

    /// The source that a name stands for. A name of no source stands for `Manual`.
    pub open spec fn named(raw: Seq<char>) -> Source {
        if raw == Source::ComposerAutosave.name() {
            Source::ComposerAutosave
        } else if raw == Source::AutoQueue.name() {
            Source::AutoQueue
        } else {
            Source::Manual
        }
    }

    pub fn as_str(self) -> (r: &'static str)
        ensures
            r@ == self.name(),
    {
        match self {
            Source::ComposerAutosave => "composer-autosave",
            Source::Manual => "manual",
            Source::AutoQueue => "auto-queue",
        }
    }

    pub fn parse(raw: &str) -> (r: Source)
        ensures
            r == Source::named(raw@),
    {
        if same(raw, "composer-autosave") {
            Source::ComposerAutosave
        } else if same(raw, "auto-queue") {
            Source::AutoQueue
        } else {
            Source::Manual
        }
    }
}

/// A draft's position in the outbox.
///
/// `Sending` is a CLAIM, not a phase of an HTTP request: the dispatcher that is
/// about to send takes it, so a second desktop window polling the same queue does
/// not send the same draft again. A claim carries a timestamp and expires
/// ([`crate::store::CLAIM_TIMEOUT_MS`]) so a dispatcher that dies mid-send releases
/// the draft instead of stranding it forever.
#[derive(Debug, Clone, Copy, PartialEq, Eq, Structural)]
pub enum State {
    /// Idle. Never sends itself.
    Draft,
    /// Has a condition and is waiting for it.
    Armed,
    /// Claimed by a dispatcher that is sending it right now.
    Sending,
    /// Sent. Kept as history; hidden from the sidebar.
    Sent,
    /// A send was attempted and failed. Visible again, with the error.
    Failed,
}

impl State {
    /// The name that stands for the state in a record.
    pub open spec fn name(self) -> Seq<char> {
        match self {
            State::Draft => "draft"@,
            State::Armed => "armed"@,
            State::Sending => "sending"@,
            State::Sent => "sent"@,
            State::Failed => "failed"@,
        }
    }

    /// The state that a name stands for. A name of no state stands for `Draft`.
    pub open spec fn named(raw: Seq<char>) -> State {
        if raw == State::Armed.name() {
            State::Armed
        } else if raw == State::Sending.name() {
            State::Sending
        } else if raw == State::Sent.name() {
            State::Sent
        } else if raw == State::Failed.name() {
            State::Failed
        } else {
            State::Draft
        }
    }

    /// Whether the name stands for a state.
    pub open spec fn is_name(raw: Seq<char>) -> bool {
        State::named(raw).name() == raw
    }

    /// What a person is told.
    pub open spec fn title(self) -> Seq<char> {
        match self {
            State::Draft => "Draft"@,
            State::Armed => "Queued"@,
            State::Sending => "Sending"@,
            State::Sent => "Sent"@,
            State::Failed => "Failed to send"@,
        }
    }

    pub fn as_str(self) -> (r: &'static str)
        ensures
            r@ == self.name(),
    {
        match self {
            State::Draft => "draft",
            State::Armed => "armed",
            State::Sending => "sending",
            State::Sent => "sent",
            State::Failed => "failed",
        }
    }

    pub fn parse(raw: &str) -> (r: State)
        ensures
            r == State::named(raw@),
    {
        if same(raw, "armed") {
            State::Armed
        } else if same(raw, "sending") {
            State::Sending
        } else if same(raw, "sent") {
            State::Sent
        } else if same(raw, "failed") {
            State::Failed
        } else {
            State::Draft
        }
    }

    /// The human label the sidebar row shows.
    pub fn label(self) -> (r: &'static str)
        ensures
            r@ == self.title(),
    {
        match self {
            State::Draft => "Draft",
            State::Armed => "Queued",
            State::Sending => "Sending",
            State::Sent => "Sent",
            State::Failed => "Failed to send",
        }
    }
}

/// Reading back the name of a source gives the source.
pub proof fn source_name_round_trip(source: Source)
    ensures
        Source::named(source.name()) == source,
{
    reveal_strlit("composer-autosave");
    reveal_strlit("manual");
    reveal_strlit("auto-queue");
    assert("composer-autosave"@.len() != "manual"@.len());
    assert("composer-autosave"@.len() != "auto-queue"@.len());
    assert("auto-queue"@.len() != "manual"@.len());
}

/// Reading back the name of a state gives the state.
pub proof fn state_name_round_trip(state: State)
    ensures
        State::named(state.name()) == state,
{
    reveal_strlit("draft");
    reveal_strlit("armed");
    reveal_strlit("sending");
    reveal_strlit("sent");
    reveal_strlit("failed");
    assert("draft"@[0] == 'd');
    assert("armed"@[0] == 'a');
    assert("failed"@[0] == 'f');
    assert("sending"@.len() == 7);
    assert("sent"@.len() == 4);
    assert("sent"@[0] == 's');
    assert("sending"@[0] == 's');
}

/// What an armed draft is waiting for.
///
/// Deliberately a CLOSED set. Every one of them is decidable from readings the
/// dispatcher can take, which is the whole reason the set is this small: a condition
/// nobody can evaluate is a draft that never sends, and a queue that silently never
/// drains is worse than no queue.
#[derive(Debug, PartialEq)]
pub enum Trigger {
    /// Never sends itself. The default, and what a draft falls back to when it is
    /// disarmed.
    Manual,
    /// Send once fewer than `below` agent runs are active on this node.
    Concurrency { below: u32 },
    /// Send once the node goes QUIET: every agent run has finished.
    ///
    /// Not a synonym for `Concurrency { below: 1 }`, which is a statement about the
    /// present and holds on a node where nothing ever ran. This one is a statement
    /// about a TRANSITION: the node must be seen busy, and then seen quiet. The
    /// "seen busy" half is latched per draft (`Draft::seen_busy`).
    AllDone,
    /// Send once `agent_id`'s fullest usage window is back under `below_percent`.
    UsageReset { agent_id: String, below_percent: Percent },
    /// Send at a wall-clock instant (epoch millis, UTC).
    At { epoch_ms: i64 },
}

/// What a [`Trigger`] says.
pub enum TriggerView {
    Manual,
    Concurrency { below: u32 },
    AllDone,
    UsageReset { agent_id: Seq<char>, below_percent: Percent },
    At { epoch_ms: i64 },
}

impl View for Trigger {
    type V = TriggerView;

    open spec fn view(&self) -> TriggerView {
        match *self {
            Trigger::Manual => TriggerView::Manual,
            Trigger::Concurrency { below } => TriggerView::Concurrency { below },
            Trigger::AllDone => TriggerView::AllDone,
            Trigger::UsageReset { agent_id, below_percent } => TriggerView::UsageReset {
                agent_id: agent_id@,
                below_percent,
            },
            Trigger::At { epoch_ms } => TriggerView::At { epoch_ms },
        }
    }
}

impl Clone for Trigger {
    fn clone(&self) -> (r: Self)
        ensures
            r@ == self@,
    {
        match self {
            Trigger::Manual => Trigger::Manual,
            Trigger::Concurrency { below } => Trigger::Concurrency { below: *below },
            Trigger::AllDone => Trigger::AllDone,
            Trigger::UsageReset { agent_id, below_percent } => Trigger::UsageReset {
                agent_id: agent_id.clone(),
                below_percent: *below_percent,
            },
            Trigger::At { epoch_ms } => Trigger::At { epoch_ms: *epoch_ms },
        }
    }
}

impl Default for Trigger {
    fn default() -> (r: Self)
        ensures
            r@ == TriggerView::Manual,
    {
        Trigger::Manual
    }
}

/// One reading of the node, taken by the dispatcher and passed in with the queue
/// poll. Facts only, no policy.
#[derive(Debug, Clone, Default)]
pub struct Readings {
    /// How many agent runs are active right now, when the dispatcher could read it.
    /// `None` means "unknown", which makes every [`Trigger::Concurrency`] hold its
    /// draft rather than guess.
    pub running: Option<u32>,
    /// `(agent_id, fullest window's used percent)` for every agent the dispatcher
    /// could read. An agent absent here is unknown, and its drafts wait.
    pub usage: Vec<(String, Percent)>,
    /// Now, in epoch millis.
    pub now_ms: i64,
}

/// What a [`Readings`] says.
#[verifier::ext_equal]
pub struct ReadingsView {
    pub running: Option<u32>,
    pub usage: Seq<(Seq<char>, Percent)>,
    pub now_ms: i64,
}

/// The agents and their usage.
pub open spec fn usage_view(usage: Seq<(String, Percent)>) -> Seq<(Seq<char>, Percent)> {
    Seq::new(usage.len(), |i: int| (usage[i].0@, usage[i].1))
}

impl View for Readings {
    type V = ReadingsView;

    open spec fn view(&self) -> ReadingsView {
        ReadingsView {
            running: self.running,
            usage: usage_view(self.usage@),
            now_ms: self.now_ms,
        }
    }
}

/// The first reading of that agent.
pub open spec fn usage_of(usage: Seq<(Seq<char>, Percent)>, agent_id: Seq<char>) -> Option<Percent>
    decreases usage.len(),
{
    if usage.len() == 0 {
        None
    } else if usage.first().0 == agent_id {
        Some(usage.first().1)
    } else {
        usage_of(usage.drop_first(), agent_id)
    }
}

/// Where the first reading of that agent stands.
proof fn lemma_usage_at(usage: Seq<(Seq<char>, Percent)>, agent_id: Seq<char>, i: int)
    requires
        0 <= i <= usage.len(),
        forall|j: int| 0 <= j < i ==> (#[trigger] usage[j]).0 != agent_id,
        i < usage.len() ==> usage[i].0 == agent_id,
    ensures
        usage_of(usage, agent_id) == (if i < usage.len() {
            Some(usage[i].1)
        } else {
            None
        }),
    decreases i,
{
    if i > 0 {
        assert(usage[0].0 != agent_id);
        assert forall|j: int| 0 <= j < i - 1 implies (#[trigger] usage.drop_first()[j]).0
            != agent_id by {
            assert(usage[j + 1].0 != agent_id);
        }
        lemma_usage_at(usage.drop_first(), agent_id, i - 1);
    }
}

/// What [`utc_text`] puts into the line of an [`Trigger::At`].
pub open spec fn instant_pattern() -> Seq<char> {
    "%Y-%m-%d %H:%M UTC"@
}

/// The first instant that `chrono` can hold, in epoch millis.
pub const FIRST_INSTANT_MS: i64 = -8_334_601_228_800_000;

/// The last instant that `chrono` can hold, in epoch millis.
pub const LAST_INSTANT_MS: i64 = 8_210_266_876_799_999;

/// What `chrono` makes of an instant (epoch millis, UTC) and a `strftime` pattern: the
/// text that `DateTime::format` writes of the `DateTime<Utc>` at that instant.
pub uninterp spec fn utc_text(epoch_ms: i64, pattern: Seq<char>) -> Seq<char>;

/// `chrono::DateTime::from_timestamp_millis`, and `format` on what it gives. There is a
/// text exactly where the instant lies in the range that `chrono` holds, the years -262143
/// to 262142, and it is a function of the instant and the pattern. The pattern is the one
/// below because `format` cannot write out every pattern.
#[verifier::external_body]
fn write_utc(epoch_ms: i64, pattern: &str) -> (r: Option<String>)
    requires
        pattern@ == instant_pattern(),
    ensures
        r is Some <==> FIRST_INSTANT_MS <= epoch_ms <= LAST_INSTANT_MS,
        r matches Some(s) ==> s@ == utc_text(epoch_ms, pattern@),
{
    chrono::DateTime::from_timestamp_millis(epoch_ms).map(|t| t.format(pattern).to_string())
}

/// The line under a draft that goes out at a set time, which is written as `time` where it
/// can be written at all.
pub open spec fn time_line(time: Option<Seq<char>>) -> Seq<char> {
    match time {
        Some(t) => "Sending at "@ + t,
        None => "Sending at a set time"@,
    }
}

/// The line under a draft that goes out at a set time.
pub fn sending_at(time: Option<String>) -> (r: String)
    ensures
        r@ == time_line(opt_view(time)),
{
    match time {
        Some(t) => {
            let mut line: String = "Sending at ".to_owned();
            line.append(t.as_str());
            line
        },
        None => "Sending at a set time".to_owned(),
    }
}

impl TriggerView {
    /// Whether a draft with this condition may be sent, given what was read of the node and
    /// whether the node was seen busy since the draft was armed. An unknown fact holds it.
    pub open spec fn satisfied(self, r: ReadingsView, seen_busy: bool) -> bool {
        match self {
            TriggerView::Manual => false,
            TriggerView::Concurrency { below } => match r.running {
                Some(running) => running < below,
                None => false,
            },
            TriggerView::AllDone => seen_busy && r.running == Some(0u32),
            TriggerView::UsageReset { agent_id, below_percent } => match usage_of(
                r.usage,
                agent_id,
            ) {
                Some(used) => used.is_below(below_percent),
                None => false,
            },
            TriggerView::At { epoch_ms } => r.now_ms >= epoch_ms,
        }
    }

    /// What is kept of the condition. A percentage that is no finite number cannot be written
    /// down, and a condition that cannot be read back is none.
    pub open spec fn kept(self) -> TriggerView {
        match self {
            TriggerView::UsageReset { below_percent, .. } => if below_percent.is_finite() {
                self
            } else {
                TriggerView::Manual
            },
            _ => self,
        }
    }

    /// The line that says what a draft with this condition waits for.
    pub open spec fn waiting_line(self) -> Seq<char> {
        match self {
            TriggerView::Manual => Seq::empty(),
            TriggerView::Concurrency { below } => if below == 1 {
                "Waiting for nothing to be running"@
            } else {
                "Waiting for fewer than "@ + decimal(below as nat) + " runs"@
            },
            TriggerView::AllDone => "Waiting for every agent to finish"@,
            TriggerView::UsageReset { agent_id, below_percent } => "Waiting for "@ + agent_id
                + " to drop under "@ + below_percent.label() + "% used"@,
            TriggerView::At { epoch_ms } => time_line(
                if FIRST_INSTANT_MS <= epoch_ms <= LAST_INSTANT_MS {
                    Some(utc_text(epoch_ms, instant_pattern()))
                } else {
                    None
                },
            ),
        }
    }
}

impl Trigger {
    /// Whether this draft may be sent given `r`.
    ///
    /// Fail-CLOSED on every missing reading: an unknown fact holds the draft. The
    /// cost of holding is that a message goes out later than it could; the cost of
    /// firing on an unknown is a message sent into a node that is still capped,
    /// which is the failure the queue exists to prevent.
    ///
    /// `seen_busy` is the draft's own latch: whether this node has been observed
    /// with work running since the draft was armed. Only [`Trigger::AllDone`] reads
    /// it; every other arm is a pure function of the readings.
    pub fn is_satisfied(&self, r: &Readings, seen_busy: bool) -> (ok: bool)
        ensures
            ok == self@.satisfied(r@, seen_busy),
    {
        match self {
            Trigger::Manual => false,
            Trigger::Concurrency { below } => match r.running {
                Some(running) => running < *below,
                None => false,
            },
            // Both halves required: the work must have STARTED (latched) and then
            // finished. Without the latch this fires the instant it is armed on an
            // idle node.
            Trigger::AllDone => match r.running {
                Some(running) => seen_busy && running == 0,
                None => false,
            },
            Trigger::UsageReset { agent_id, below_percent } => {
                let mut i: usize = 0;
                while i < r.usage.len()
                    invariant
                        i <= r.usage@.len(),
                        forall|j: int|
                            0 <= j < i ==> (#[trigger] usage_view(r.usage@)[j]).0 != agent_id@,
                        self@ == (TriggerView::UsageReset {
                            agent_id: agent_id@,
                            below_percent: *below_percent,
                        }),
                    decreases r.usage.len() - i,
                {
                    if same(r.usage[i].0.as_str(), agent_id.as_str()) {
                        proof {
                            lemma_usage_at(usage_view(r.usage@), agent_id@, i as int);
                        }
                        return r.usage[i].1.below(below_percent);
                    }
                    i = i + 1;
                }
                proof {
                    lemma_usage_at(usage_view(r.usage@), agent_id@, i as int);
                }
                false
            },
            Trigger::At { epoch_ms } => r.now_ms >= *epoch_ms,
        }
    }

    /// What is kept of the condition.
    pub fn into_kept(self) -> (r: Trigger)
        ensures
            r@ == self@.kept(),
    {
        let readable: bool = match &self {
            Trigger::UsageReset { below_percent, .. } => below_percent.finite(),
            _ => true,
        };
        if readable {
            self
        } else {
            Trigger::Manual
        }
    }

    /// The one-line "waiting for" the sidebar row shows under the preview.
    pub fn waiting_for(&self) -> (r: String)
        ensures
            r@ == self@.waiting_line(),
    {
        match self {
            Trigger::Manual => String::new(),
            Trigger::Concurrency { below } => {
                if *below == 1 {
                    "Waiting for nothing to be running".to_owned()
                } else {
                    join(
                        "Waiting for fewer than ",
                        write_decimal(*below as u64).as_str(),
                        " runs",
                    )
                }
            },
            // Not parameterised on the latch: there is only the trigger here. `DraftRow`
            // has another line for an AllDone draft that has not latched yet.
            Trigger::AllDone => "Waiting for every agent to finish".to_owned(),
            Trigger::UsageReset { agent_id, below_percent } => {
                let mut line: String = join("Waiting for ", agent_id.as_str(), " to drop under ");
                line.append(below_percent.write().as_str());
                line.append("% used");
                line
            },
            Trigger::At { epoch_ms } => sending_at(write_utc(*epoch_ms, "%Y-%m-%d %H:%M UTC")),
        }
    }
}

/// One draft.
#[derive(Debug)]
pub struct Draft {
    pub id: String,
    /// The message text. May be empty while the composer is still being typed into.
    pub text: String,
    /// The conversation this text was typed into, when it was typed into one. A
    /// draft with no conversation sends as a NEW chat.
    pub conversation_id: Option<String>,
    pub agent_id: Option<String>,
    pub model: Option<String>,
    pub folder_path: Option<String>,
    pub source: Source,
    pub state: State,
    pub trigger: Trigger,
    /// Set when the last send attempt failed.
    pub error: Option<String>,
    /// Latched by the dispatcher once this node has been observed with work
    /// running since the draft was armed. Only [`Trigger::AllDone`] consults it.
    pub seen_busy: bool,
    pub created_at: i64,
    pub updated_at: i64,
    pub claimed_at: Option<i64>,
    pub sent_at: Option<i64>,
}

/// What a [`Draft`] says.
#[verifier::ext_equal]
pub struct DraftView {
    pub id: Seq<char>,
    pub text: Seq<char>,
    pub conversation_id: Option<Seq<char>>,
    pub agent_id: Option<Seq<char>>,
    pub model: Option<Seq<char>>,
    pub folder_path: Option<Seq<char>>,
    pub source: Source,
    pub state: State,
    pub trigger: TriggerView,
    pub error: Option<Seq<char>>,
    pub seen_busy: bool,
    pub created_at: i64,
    pub updated_at: i64,
    pub claimed_at: Option<i64>,
    pub sent_at: Option<i64>,
}

impl View for Draft {
    type V = DraftView;

    open spec fn view(&self) -> DraftView {
        DraftView {
            id: self.id@,
            text: self.text@,
            conversation_id: opt_view(self.conversation_id),
            agent_id: opt_view(self.agent_id),
            model: opt_view(self.model),
            folder_path: opt_view(self.folder_path),
            source: self.source,
            state: self.state,
            trigger: self.trigger@,
            error: opt_view(self.error),
            seen_busy: self.seen_busy,
            created_at: self.created_at,
            updated_at: self.updated_at,
            claimed_at: self.claimed_at,
            sent_at: self.sent_at,
        }
    }
}

impl Clone for Draft {
    fn clone(&self) -> (r: Self)
        ensures
            r@ == self@,
    {
        Draft {
            id: self.id.clone(),
            text: self.text.clone(),
            conversation_id: copy_opt(&self.conversation_id),
            agent_id: copy_opt(&self.agent_id),
            model: copy_opt(&self.model),
            folder_path: copy_opt(&self.folder_path),
            source: self.source,
            state: self.state,
            trigger: self.trigger.clone(),
            error: copy_opt(&self.error),
            seen_busy: self.seen_busy,
            created_at: self.created_at,
            updated_at: self.updated_at,
            claimed_at: self.claimed_at,
            sent_at: self.sent_at,
        }
    }
}

/// How long a preview may be before it is cut. One sidebar row, one line.
pub const PREVIEW_CHARS: usize = 80;

/// The first line that is not blank, or nothing where every line is.
pub open spec fn first_line(lines: Seq<Seq<char>>) -> Seq<char>
    decreases lines.len(),
{
    if lines.len() == 0 {
        Seq::empty()
    } else if !is_blank(lines.first()) {
        lines.first()
    } else {
        first_line(lines.drop_first())
    }
}

/// Where the first line that is not blank stands.
proof fn lemma_first_line_at(lines: Seq<Seq<char>>, i: int)
    requires
        0 <= i <= lines.len(),
        forall|j: int| 0 <= j < i ==> is_blank(#[trigger] lines[j]),
        i < lines.len() ==> !is_blank(lines[i]),
    ensures
        first_line(lines) == (if i < lines.len() {
            lines[i]
        } else {
            Seq::empty()
        }),
    decreases i,
{
    if i > 0 {
        assert(is_blank(lines[0]));
        assert forall|j: int| 0 <= j < i - 1 implies is_blank(
            #[trigger] lines.drop_first()[j],
        ) by {
            assert(is_blank(lines[j + 1]));
        }
        lemma_first_line_at(lines.drop_first(), i - 1);
    }
}

/// At most that many characters, and an ellipsis in the place of what was cut.
pub open spec fn shortened(s: Seq<char>) -> Seq<char> {
    if s.len() > PREVIEW_CHARS {
        s.take(PREVIEW_CHARS as int).push('\u{2026}')
    } else {
        s
    }
}

/// A text in one line: its first line that is not blank, trimmed and cut.
pub open spec fn preview_line(text: Seq<char>) -> Seq<char> {
    shortened(trimmed(first_line(pieces(text, '\n'))))
}

/// A text in one line. Cut between characters: the text is arbitrary user input.
pub fn preview_of(text: &str) -> (r: String)
    ensures
        r@ == preview_line(text@),
{
    let lines: Vec<String> = split_all(text, '\n');
    let mut i: usize = 0;
    while i < lines.len() && blank(lines[i].as_str())
        invariant
            i <= lines@.len(),
            forall|j: int| 0 <= j < i ==> is_blank(#[trigger] views(lines@)[j]),
        decreases lines.len() - i,
    {
        i = i + 1;
    }
    proof {
        lemma_first_line_at(views(lines@), i as int);
    }
    let line: String = if i < lines.len() {
        trim(lines[i].as_str())
    } else {
        proof {
            crate::text::lemma_blank_trims_to_nothing(Seq::empty());
            assert(trimmed(Seq::empty()) =~= Seq::empty());
        }
        String::new()
    };
    let chars: Vec<char> = chars_of(line.as_str());
    if chars.len() > PREVIEW_CHARS {
        let mut cut: String = text_of(&chars, 0, PREVIEW_CHARS);
        cut.push('\u{2026}');
        cut
    } else {
        line
    }
}

/// The presentation fields the sidebar's declarative `map` reads. Computed here
/// rather than in the manifest because a `sidebar_sections` spec can only project
/// existing keys: "first line, truncated" and "what is this waiting for" have to
/// arrive already rendered.
#[derive(Debug, Clone)]
pub struct DraftRow {
    pub draft: Draft,
    pub preview: String,
    pub state_label: &'static str,
    pub waiting_for: String,
}

/// What a [`DraftRow`] says.
#[verifier::ext_equal]
pub struct DraftRowView {
    pub draft: DraftView,
    pub preview: Seq<char>,
    pub state_label: Seq<char>,
    pub waiting_for: Seq<char>,
}

impl View for DraftRow {
    type V = DraftRowView;

    open spec fn view(&self) -> DraftRowView {
        DraftRowView {
            draft: self.draft@,
            preview: self.preview@,
            state_label: self.state_label@,
            waiting_for: self.waiting_for@,
        }
    }
}

impl DraftView {
    /// The line under the preview: what a queued draft waits for, why a failed one failed.
    pub open spec fn status_line(self) -> Seq<char> {
        match self.state {
            State::Armed => if self.trigger is AllDone && !self.seen_busy {
                "Waiting for agents to start, then finish"@
            } else {
                self.trigger.waiting_line()
            },
            State::Failed => match self.error {
                Some(e) => e,
                None => "Send failed"@,
            },
            _ => Seq::empty(),
        }
    }

    /// The sidebar row of the draft.
    pub open spec fn row(self) -> DraftRowView {
        DraftRowView {
            draft: self,
            preview: preview_line(self.text),
            state_label: self.state.title(),
            waiting_for: self.status_line(),
        }
    }
}

impl From<Draft> for DraftRow {
    fn from(draft: Draft) -> (row: DraftRow)
        ensures
            row@ == draft@.row(),
    {
        let preview: String = preview_of(draft.text.as_str());
        let waiting_for: String = match draft.state {
            State::Armed => match &draft.trigger {
                // An AllDone draft that has not seen the node busy yet would otherwise
                // read "waiting for every agent to finish" while nothing has ever
                // started, which looks like a stuck queue rather than a correct wait.
                Trigger::AllDone => {
                    if draft.seen_busy {
                        draft.trigger.waiting_for()
                    } else {
                        "Waiting for agents to start, then finish".to_owned()
                    }
                },
                _ => draft.trigger.waiting_for(),
            },
            State::Failed => match &draft.error {
                Some(e) => e.clone(),
                None => "Send failed".to_owned(),
            },
            _ => String::new(),
        };
        DraftRow { preview, state_label: draft.state.label(), waiting_for, draft }
    }
}

impl vstd::std_specs::convert::FromSpecImpl<Draft> for DraftRow {
    open spec fn obeys_from_spec() -> bool {
        false
    }

    open spec fn from_spec(v: Draft) -> DraftRow {
        arbitrary()
    }
}

/// Node-wide behaviour. One row, id `default`.
#[derive(Debug, Clone, Copy, PartialEq, Eq, Structural)]
pub struct Settings {
    /// Keep composer text the user walks away from.
    pub autosave_enabled: bool,
    /// Below this many characters, abandoned text is discarded rather than kept: a
    /// stray keystroke is not a draft.
    pub autosave_min_chars: u32,
    /// Turn a send into a queued draft when the node is already at `max_concurrent`.
    pub auto_queue_enabled: bool,
    /// The concurrency ceiling `auto_queue_enabled` compares against, and the
    /// `below` an auto-queued draft is armed with.
    pub max_concurrent: u32,
}

/// The settings of a node that has none of its own.
pub open spec fn default_settings() -> Settings {
    Settings {
        autosave_enabled: true,
        autosave_min_chars: 4,
        auto_queue_enabled: false,
        max_concurrent: 3,
    }
}

impl Default for Settings {
    /// Queueing is OFF by default: it changes what happens when you press Enter, and a
    /// user who has not asked for a queue should get the send they pressed for. Autosave
    /// is on because it only ever preserves text that would otherwise be destroyed.
    fn default() -> (r: Self)
        ensures
            r == default_settings(),
    {
        Settings {
            autosave_enabled: true,
            autosave_min_chars: 4,
            auto_queue_enabled: false,
            max_concurrent: 3,
        }
    }
}

} // verus!
