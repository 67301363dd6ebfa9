//! What the smaller calls give back: the dispatcher's steps, conditions, rows, tokens, readings,
//! numbers and texts.

use vstd::prelude::*;
use vstd::utf8::*;

use crate::api::{
    bad_request, claim_reply, conflict, fail, is_valid_id, new_id, not_found, one_reply, save_reply,
    trigger_reply, usable_id, BodyView, Reply, SaveBody,
};
use crate::auth::{
    bearer_gate, bearer_ok, bearer_token, configured_value, listen_port, parse_port,
};
use crate::dispatch::{
    core_unreachable, follows, follows_at, plan, precedes, refused_call, release, release_at,
    release_result, step, step_at, Action, Event, HostCall, NodeReport, Phase,
};
use crate::laws::answers::{
    a_token_stands_behind_its_scheme, an_id_is_a_short_name, complains, name_char, shows,
};
use crate::laws::changes::observing_only_latches;
use crate::laws::fields::{
    a_reading_changes_nothing_else, every_draft_is_found, has_text, reads,
};
use crate::laws::judging::{amount, first_reading, no_number};
use crate::laws::lists::the_queue_is_what_may_go;
use crate::laws::sending::{
    a_posted_turn_is_what_the_draft_asks_for, a_release_claims_the_oldest,
    a_wake_asks_exactly_what_is_needed, may_go, some_wait_for,
};
use crate::laws::wording::{
    a_number_is_read_back, a_text_is_cut_at_the_first, a_text_is_cut_at_the_last, lacks,
};
use crate::models::{
    preview_line, preview_of, sending_at, Draft, DraftRow, DraftView, Readings, Source, State,
    Trigger,
};
use crate::number::{decimal, parse_unsigned, unsigned, write_decimal, write_scaled};
use crate::percent::Percent;
use crate::query::{
    encodes, history_limit, known_usage, limit_of, param, param_of, parse_readings,
    parse_readings_at, percent_decode, plain, readings_read, running_of, unescaped, usage_reading,
    written_usage,
};
use crate::store::{
    describes, draft_to_row, found, on_clock, row_to_draft, BeingSent, DraftRecord, Store,
};
use crate::text::{
    blank, is_blank, is_space, join, opt_view, pieces, same, split_all, split_first, split_last,
    str_view, trim, views,
};

verus! {

/// A step at its instants posts only what a draft asks for, field by field, and claims that draft.
pub proof fn a_step_posts_what_a_draft_asks_for(
    store: &mut Store,
    phase: Phase,
    event: Event,
    at: i64,
    now: i64,
    r: (Phase, Action),
)
    requires
        old(store).wf(),
        call_ensures(step_at, (store, phase, event, at, now), r),
    ensures
        follows_at(old(store)@, phase, event, at, now, final(store)@, r.0, r.1),
        final(store).wf(),
        r.1 matches Action::Post { turn } ==> (r.0 matches Phase::Sending { id } && old(store)@.get(id@) is Some && final(store)@.get(id@) is Some && {
            let e = old(store)@.get(id@)->0;
            let d = final(store)@.get(id@)->0;
            &&& turn.text@ == e.text
            &&& reads(turn.agent_id, e.agent_id)
            &&& reads(turn.conversation_id, e.conversation_id)
            &&& reads(turn.model, e.model)
            &&& e.state is Armed
            &&& d.state is Sending
            &&& d.claimed_at == Some(now)
        }),
{
    if let Action::Post { turn } = r.1 {
        a_posted_turn_is_what_the_draft_asks_for(
            old(store)@,
            phase,
            event,
            at,
            now,
            final(store)@,
            r.0,
            turn,
        );
    }
}

/// A step posts only what a draft asks for, field by field, and claims that draft.
pub proof fn a_step_now_posts_what_a_draft_asks_for(
    store: &mut Store,
    phase: Phase,
    event: Event,
    r: (Phase, Action),
)
    requires
        old(store).wf(),
        call_ensures(step, (store, phase, event), r),
    ensures
        exists|at: i64, now: i64|
            on_clock(at) && on_clock(now) && #[trigger] follows_at(
                old(store)@,
                phase,
                event,
                at,
                now,
                final(store)@,
                r.0,
                r.1,
            ),
        final(store).wf(),
        r.1 matches Action::Post { turn } ==> (r.0 matches Phase::Sending { id } && old(store)@.get(id@) is Some && {
            let e = old(store)@.get(id@)->0;
            &&& turn.text@ == e.text
            &&& reads(turn.agent_id, e.agent_id)
            &&& reads(turn.conversation_id, e.conversation_id)
            &&& reads(turn.model, e.model)
        }),
{
    let s = old(store)@;
    let t = final(store)@;
    assert(follows(s, phase, event, t, r.0, r.1));
    if let Action::Post { turn } = r.1 {
        let (at, now) = choose|at: i64, now: i64|
            on_clock(at) && on_clock(now) && #[trigger] follows_at(
                s,
                phase,
                event,
                at,
                now,
                t,
                r.0,
                r.1,
            );
        a_posted_turn_is_what_the_draft_asks_for(s, phase, event, at, now, t, r.0, turn);
    }
}

/// A release gives a draft exactly where one may go, and then the one written first, claimed at
/// that instant.
pub proof fn a_release_gives_the_oldest_that_may_go(
    store: &mut Store,
    r: Readings,
    now: i64,
    d: Option<Draft>,
)
    requires
        old(store).wf(),
        call_ensures(release_at, (store, &r, now), d),
    ensures
        d is Some <==> exists|i: int|
            0 <= i < old(store)@.rows.len() && may_go(#[trigger] old(store)@.rows[i], r@),
        d matches Some(d) ==> {
            &&& old(store)@.get(d.id@) is Some
            &&& may_go(old(store)@.get(d.id@)->0, r@)
            &&& final(store)@.get(d.id@) == Some(d@)
            &&& d.state is Sending
            &&& d.claimed_at == Some(now)
            &&& d.text@ == old(store)@.get(d.id@)->0.text
            &&& forall|i: int|
                0 <= i < old(store)@.rows.len() && may_go(#[trigger] old(store)@.rows[i], r@)
                    ==> d.created_at <= old(store)@.rows[i].created_at
        },
        final(store).wf(),
{
    let s = old(store)@;
    let v = r@;
    let seen = s.observe(v);
    assert((final(store)@, found(d)) == release_result(s, v, now));
    a_release_claims_the_oldest(s, v, now);
    observing_only_latches(s, v);
    the_queue_is_what_may_go(seen, v);
    let queue = seen.releasable(v);
    assert forall|i: int| 0 <= i < s.rows.len() && may_go(#[trigger] s.rows[i], v) implies
        queue.contains(seen.rows[i]) && seen.rows[i].created_at == s.rows[i].created_at by {
        assert(seen.rows.contains(seen.rows[i]));
    }
    if queue.len() > 0 {
        let e = queue.first();
        assert(queue.contains(e));
        let i = choose|i: int| 0 <= i < seen.rows.len() && seen.rows[i] == e;
        a_reading_changes_nothing_else(s, v, i);
        every_draft_is_found(s, i);
        assert(may_go(s.rows[i], v));
    }
}

/// What is asked of Core is about exactly the agents whose usage an armed draft waits for, each
/// once and in order; nothing is asked exactly where no draft is armed.
pub proof fn a_plan_asks_exactly_what_is_needed(store: Store, r: Option<Vec<String>>)
    requires
        call_ensures(plan, (&store,), r),
    ensures
        r is Some <==> exists|i: int|
            0 <= i < store@.rows.len() && (#[trigger] store@.rows[i]).state is Armed,
        r matches Some(ids) ==> {
            &&& forall|id: Seq<char>|
                (exists|k: int| 0 <= k < ids@.len() && #[trigger] ids@[k]@ == id)
                    <==> #[trigger] some_wait_for(store@, id)
            &&& forall|j: int, k: int|
                0 <= j < k < ids@.len() ==> precedes(
                    (#[trigger] ids@[j])@,
                    (#[trigger] ids@[k])@,
                )
        },
{
    let s = store@;
    match r {
        Some(agent_ids) => {
            let action = Action::Ask { agent_ids };
            a_wake_asks_exactly_what_is_needed(s, 0, 0, s, Phase::Reading, action);
        },
        None => {
            a_wake_asks_exactly_what_is_needed(s, 0, 0, s, Phase::Idle, Action::Rest);
        },
    }
}

/// A report is read as it is: the instant, the runs up to the largest number there is room for,
/// and the usage row by row.
pub proof fn a_report_is_read_as_it_is(report: NodeReport, now: i64, r: Readings)
    requires
        call_ensures(NodeReport::into_readings, (report, now), r),
    ensures
        r.now_ms == now,
        r.running is Some <==> report.running is Some,
        report.running matches Some(n) ==> if n <= 4_294_967_295 {
            r.running->0 == n
        } else {
            r.running->0 == 4_294_967_295
        },
        r@.usage == report.readings(now).usage,
{
}

/// Core can be called exactly where there is a token and a plugin id that are not empty and a
/// port; it is called on this machine, with that token.
pub proof fn core_is_called_as_the_environment_says(
    token: Option<String>,
    plugin_id: Option<String>,
    port: Option<String>,
    r: Option<HostCall>,
)
    requires
        call_ensures(HostCall::from_vars, (token, plugin_id, port), r),
    ensures
        r is Some <==> {
            &&& token is Some && token->0@.len() > 0
            &&& plugin_id is Some && plugin_id->0@.len() > 0
            &&& port is Some && unsigned(port->0@, 65535) is Some
        },
        r matches Some(h) ==> {
            &&& h.token@ == token->0@
            &&& h.plugin_id@ == plugin_id->0@
            &&& h.base@ == "http://127.0.0.1:"@ + decimal(unsigned(port->0@, 65535)->0)
        },
{
}

/// How Core is called, and what is said where a call fails.
pub proof fn calls_to_core_read_so(
    h: HostCall,
    cap: &str,
    url: String,
    bearer: String,
    why: &str,
    lost: String,
    ok: bool,
    error: Option<&str>,
    refused: Option<String>,
)
    requires
        call_ensures(HostCall::url, (&h, cap), url),
        call_ensures(HostCall::authorization, (&h,), bearer),
        call_ensures(core_unreachable, (why,), lost),
        call_ensures(refused_call, (cap, ok, error), refused),
    ensures
        url@ == h.base@ + "/api/host/capability/"@ + cap@,
        bearer@ == "Bearer "@ + h.token@,
        lost@ == "could not reach Core: "@ + why@,
        ok <==> refused is None,
        !ok && error is Some ==> refused->0@ == cap@ + ": "@ + error->0@,
        !ok && error is None ==> refused->0@ == cap@ + ": "@ + "call refused"@,
{
}

/// Whether a draft may go is about its own condition: the run count, the latch and the run count,
/// the agent's usage, or the time.
pub proof fn a_verdict_is_about_the_condition(t: Trigger, r: Readings, latch: bool, ok: bool)
    requires
        call_ensures(Trigger::is_satisfied, (&t, &r, latch), ok),
    ensures
        t is Manual ==> !ok,
        t matches Trigger::Concurrency { below } ==> (ok <==> r.running is Some && r.running->0
            < below),
        t is AllDone ==> (ok <==> latch && r.running == Some(0u32)),
        t matches Trigger::UsageReset { agent_id, below_percent } ==> (ok <==> exists|i: int|
            #[trigger] first_reading(r@, agent_id@, i) && r.usage@[i].1.is_below(below_percent)),
        t matches Trigger::At { epoch_ms } ==> (ok <==> r.now_ms >= epoch_ms),
{
    match t {
        Trigger::UsageReset { agent_id, below_percent } => {
            crate::laws::judging::usage_is_about_that_agents_usage(
                agent_id@,
                below_percent,
                r@,
                r@,
                latch,
                latch,
            );
            assert forall|i: int| #[trigger] first_reading(r@, agent_id@, i) implies r@.usage[i].1
                == r.usage@[i].1 by {}
            if ok {
                let i = choose|i: int|
                    #[trigger] first_reading(r@, agent_id@, i) && r@.usage[i].1.is_below(
                        below_percent,
                    );
                assert(first_reading(r@, agent_id@, i));
            }
        },
        _ => {},
    }
}

/// What a draft waits for is said of its condition as its row says it.
pub proof fn a_condition_says_what_it_waits_for(t: Trigger, r: String, d: DraftView)
    requires
        call_ensures(Trigger::waiting_for, (&t,), r),
        d.state is Armed,
        d.seen_busy,
        d.trigger == t@,
    ensures
        r@ == d.row().waiting_for,
{
}

/// A row shows its draft, and of it the preview, the label and the line.
pub proof fn a_row_is_made_of_its_draft(draft: Draft, row: DraftRow, text: &str, preview: String)
    requires
        call_ensures(<DraftRow as From<Draft>>::from, (draft,), row),
        call_ensures(preview_of, (text,), preview),
    ensures
        row.draft@ == draft@,
        row.preview@ == preview_line(draft.text@),
        row.state_label@ == draft.state.title(),
        row.waiting_for@ == draft@.row().waiting_for,
        preview@ == preview_line(text@),
{
}

/// A copy of a draft or of a condition is the same in every field.
pub proof fn copies_are_the_same(d: Draft, e: Draft, t: Trigger, u: Trigger)
    requires
        call_ensures(<Draft as Clone>::clone, (&d,), e),
        call_ensures(<Trigger as Clone>::clone, (&t,), u),
    ensures
        e@ == d@,
        u@ == t@,
{
}

/// Names are given and read back, and what is no name reads as the plainest.
pub proof fn names_are_given_and_read(
    state: State,
    name: &'static str,
    label: &'static str,
    source: Source,
    source_name: &'static str,
    raw: &str,
    read: State,
    read_source: Source,
)
    requires
        call_ensures(State::as_str, (state,), name),
        call_ensures(State::label, (state,), label),
        call_ensures(Source::as_str, (source,), source_name),
        call_ensures(State::parse, (raw,), read),
        call_ensures(Source::parse, (raw,), read_source),
    ensures
        name@ == state.name(),
        label@ == state.title(),
        source_name@ == source.name(),
        raw@ == name@ ==> read == state,
        raw@ == source_name@ ==> read_source == source,
        read == State::named(raw@),
        read_source == Source::named(raw@),
{
    crate::models::state_name_round_trip(state);
    crate::models::source_name_round_trip(source);
}

/// A row of the table is read into a draft and written from one, column by column.
pub proof fn rows_and_drafts_are_one(row: DraftRecord, d: Draft, e: Draft, written: DraftRecord)
    requires
        call_ensures(row_to_draft, (&row,), d),
        call_ensures(draft_to_row, (e,), written),
    ensures
        d@ == row.draft(),
        describes(written, e@),
        written.state@ == e.state.name(),
        written.source@ == e.source.name(),
{
}

/// A body becomes a draft with what it says, armed where it has a condition.
pub proof fn a_body_becomes_its_draft(body: SaveBody, id: String, now: i64, d: Draft)
    requires
        call_ensures(SaveBody::into_draft_at, (body, id, now), d),
    ensures
        d.id@ == id@,
        d.text@ == body.text@,
        reads(body.conversation_id, d@.conversation_id),
        reads(body.agent_id, d@.agent_id),
        reads(body.model, d@.model),
        reads(body.folder_path, d@.folder_path),
        body.source is None ==> d.source is Manual,
        body.source matches Some(n) ==> d.source == Source::named(n@),
        body.trigger is None ==> d.trigger@ is Manual && d.state is Draft,
        body.trigger matches Some(t) ==> d.trigger@ == t@ && (t@ is Manual <==> d.state is Draft)
            && (!(t@ is Manual) <==> d.state is Armed),
        d@.error is None,
        !d.seen_busy,
        d.created_at == now,
        d.updated_at == now,
        d.claimed_at is None,
        d.sent_at is None,
{
}

/// An id is accepted exactly where it is a short name, and a new one always is.
pub proof fn ids_are_short_names(
    id: &str,
    ok: bool,
    fresh: String,
    asked: Option<String>,
    usable: Option<String>,
)
    requires
        call_ensures(is_valid_id, (id,), ok),
        call_ensures(new_id, (), fresh),
        call_ensures(usable_id, (asked,), usable),
    ensures
        ok <==> 1 <= id@.len() <= 64 && (forall|i: int|
            0 <= i < id@.len() ==> name_char(#[trigger] id@[i])),
        fresh@.len() == 36,
        forall|i: int| 0 <= i < fresh@.len() ==> name_char(#[trigger] fresh@[i]),
        usable matches Some(u) ==> asked matches Some(a) && u@ == a@,
        usable is Some <==> asked is Some && 1 <= asked->0@.len() <= 64 && (forall|i: int|
            0 <= i < asked->0@.len() ==> name_char(#[trigger] asked->0@[i])),
{
    an_id_is_a_short_name(id@);
    an_id_is_a_short_name(fresh@);
    crate::api::new_ids_are_valid(fresh@);
    let digits = choose|digits: Seq<char>|
        #[trigger] crate::api::uuid_digits(digits) && fresh@ == "dft_"@ + digits;
    reveal_strlit("dft_");
    if asked is Some {
        an_id_is_a_short_name(asked->0@);
    }
}

/// A request is served exactly where it presents the configured token behind its scheme, and else
/// answered that it is unauthorized.
pub proof fn a_request_is_served_only_with_the_token(
    header: Option<&str>,
    expected: Option<&str>,
    r: Option<Reply>,
    token: Option<String>,
    provided: Option<&str>,
    ok: bool,
)
    requires
        call_ensures(bearer_gate, (header, expected), r),
        call_ensures(bearer_token, (header,), token),
        call_ensures(bearer_ok, (provided, expected), ok),
    ensures
        r is None <==> header is Some && expected is Some && header->0@ == "Bearer "@
            + expected->0@,
        r matches Some(refusal) ==> complains(refusal@, 401, "unauthorized"@),
        token matches Some(t) ==> header is Some && header->0@ == "Bearer "@ + t@,
        ok <==> provided is Some && expected is Some && provided->0@ == expected->0@,
{
    if header is Some {
        if expected is Some {
            a_token_stands_behind_its_scheme(header->0@, expected->0@);
        }
        if token is Some {
            a_token_stands_behind_its_scheme(header->0@, token->0@);
        }
    }
}

/// A variable that is empty is none, and a port is a number that there is room for; without one it
/// is 8012.
pub proof fn variables_are_read_so(
    raw: Option<String>,
    value: Option<String>,
    text: Option<&str>,
    port: Option<u16>,
    listen: u16,
)
    requires
        call_ensures(configured_value, (raw,), value),
        call_ensures(parse_port, (text,), port),
        call_ensures(listen_port, (text,), listen),
    ensures
        value is Some <==> raw is Some && raw->0@.len() > 0,
        value matches Some(v) ==> v@ == raw->0@,
        port is Some <==> text is Some && unsigned(text->0@, 65535) is Some,
        port matches Some(p) ==> p == unsigned(text->0@, 65535)->0 && listen == p,
        port is None ==> listen == 8012,
{
}

/// Decoding gives back what a client encoded, leaves a text without escapes as it is, and is
/// done byte by byte.
pub proof fn decoding_gives_back_what_was_encoded(raw: &str, r: String, text: Seq<char>)
    requires
        call_ensures(percent_decode, (raw,), r),
    ensures
        encodes(encode_utf8(raw@), encode_utf8(text)) ==> r@ == text,
        plain(raw@) ==> r@ == raw@,
        valid_utf8(unescaped(encode_utf8(raw@))) ==> r@ == decode_utf8(
            unescaped(encode_utf8(raw@)),
        ),
{
}

/// A parameter is what the query string gives it, and a history limit what it asks for.
pub proof fn parameters_are_read_so(
    query: Option<&str>,
    key: &str,
    value: Option<String>,
    limit: u32,
)
    requires
        call_ensures(param, (query, key), value),
        call_ensures(history_limit, (query,), limit),
    ensures
        query is None ==> value is None,
        query matches Some(q) ==> opt_view(value) == param_of(Some(q@), key@),
        1 <= limit <= 500,
        limit == limit_of(str_view(query)),
{
}

/// The text reads as that percentage.
pub open spec fn reads_as<F: Fn(&str) -> Option<Percent>>(
    percent_of: F,
    text: Seq<char>,
    percent: Option<Percent>,
) -> bool {
    exists|s: &str| s@ == text && #[trigger] call_ensures(percent_of, (s,), percent)
}

/// Readings bear the instant and what the query string says: the run count, and for each usage
/// pair that can be read what the percentage reads as.
pub proof fn readings_are_what_the_query_says<F: Fn(&str) -> Option<Percent>>(
    query: Option<&str>,
    percent_of: F,
    now: i64,
    r: Readings,
)
    requires
        call_ensures(parse_readings_at::<F>, (query, percent_of, now), r),
    ensures
        r.now_ms == now,
        query is None ==> r.running is None && r.usage@.len() == 0,
        query matches Some(q) ==> {
            let written = written_usage(pieces(q@, '&'));
            &&& r.running == running_of(pieces(q@, '&'))
            &&& exists|percents: Seq<Option<Percent>>|
                percents.len() == written.len() && #[trigger] known_usage(written, percents)
                    == r@.usage && forall|i: int|
                    0 <= i < percents.len() ==> reads_as(
                        percent_of,
                        written[i].1,
                        #[trigger] percents[i],
                    )
        },
{
    if query is Some {
        let q = query->0@;
        let written = written_usage(pieces(q, '&'));
        let percents = choose|percents: Seq<Option<Percent>>|
            #[trigger] crate::query::percents_read(percent_of, written, percents) && r@.usage
                == known_usage(written, percents);
        assert(known_usage(written, percents) == r@.usage);
        assert forall|i: int| 0 <= i < percents.len() implies reads_as(
            percent_of,
            written[i].1,
            #[trigger] percents[i],
        ) by {
            assert(crate::query::percent_read(percent_of, written[i].1, percents[i]));
        }
    }
}

/// Numbers are read as they are written.
pub proof fn numbers_are_read_as_written(
    text: &str,
    max: u32,
    r: Option<u32>,
    n: u64,
    written: String,
    m: u64,
    twos: u32,
    scaled: String,
)
    requires
        call_ensures(parse_unsigned, (text, max), r),
        call_ensures(write_decimal, (n,), written),
        call_ensures(write_scaled, (m, twos), scaled),
    ensures
        text@ == written@ && n <= max ==> r == Some(n as u32),
        text@ == written@ && n > max ==> r is None,
        written@ == decimal(n as nat),
        scaled@ == decimal(m as nat * vstd::arithmetic::power2::pow2(twos as nat)),
        r matches Some(k) ==> k <= max && unsigned(text@, max as nat) == Some(k as nat),
        r is None ==> unsigned(text@, max as nat) is None,
{
    a_number_is_read_back(n as nat, max as nat);
}

/// Percentages compare as the numbers they stand for, and are written to the nearest whole number.
pub proof fn percentages_are_numbers(
    a: Percent,
    b: Percent,
    below: bool,
    finite: bool,
    text: String,
)
    requires
        call_ensures(Percent::below, (&a, &b), below),
        call_ensures(Percent::finite, (&a,), finite),
        call_ensures(Percent::write, (&a,), text),
    ensures
        below <==> !no_number(a) && !no_number(b) && amount(a) < amount(b),
        text@ == a.label(),
        finite <==> a.is_finite(),
        no_number(a) ==> text@ == "NaN"@,
        !no_number(a) && !finite && a.bits < 0x8000_0000_0000_0000 ==> text@ == "inf"@,
        !no_number(a) && !finite && a.bits >= 0x8000_0000_0000_0000 ==> text@ == "-"@ + "inf"@,
        finite ==> exists|n: nat|
            text@ == (if a.bits >= 0x8000_0000_0000_0000 {
                "-"@ + #[trigger] decimal(n)
            } else {
                decimal(n)
            }),
{
    crate::laws::judging::percentages_compare_as_numbers(a, b);
    let bits = a.bits as int % 0x8000_0000_0000_0000;
    assert(bits == a.magnitude());
    if finite {
        let n = crate::laws::judging::a_percentage_is_written_to_the_nearest(a);
        assert(decimal(n) == decimal(n));
    }
}

/// Texts are the same where their characters are, blank where there is nothing but white space,
/// and joined one behind the other.
pub proof fn texts_are_their_characters(
    a: &str,
    b: &str,
    c: &str,
    alike: bool,
    empty: bool,
    all: String,
)
    requires
        call_ensures(same, (a, b), alike),
        call_ensures(blank, (a,), empty),
        call_ensures(join, (a, b, c), all),
    ensures
        alike <==> a@ == b@,
        empty <==> !has_text(a@),
        all@ == a@ + b@ + c@,
{
    if empty {
        assert(is_blank(a@));
    } else {
        let i = choose|i: int| 0 <= i < a@.len() && !is_space(#[trigger] a@[i]);
        assert(!is_space(a@[i]));
    }
}

/// Texts are trimmed at both ends, and cut at the first or the last separator.
pub proof fn texts_are_trimmed_and_cut(
    text: &str,
    sep: char,
    front: Seq<char>,
    middle: Seq<char>,
    back: Seq<char>,
    trimmed: String,
    first: Option<(String, String)>,
    last: Option<(String, String)>,
    all: Vec<String>,
)
    requires
        call_ensures(trim, (text,), trimmed),
        call_ensures(split_first, (text, sep), first),
        call_ensures(split_last, (text, sep), last),
        call_ensures(split_all, (text, sep), all),
    ensures
        is_blank(front) && is_blank(back) && middle.len() > 0 && !is_space(middle.first())
            && !is_space(middle.last()) && text@ == front + middle + back ==> trimmed@ == middle,
        is_blank(text@) ==> trimmed@.len() == 0,
        lacks(text@, sep) ==> first is None && last is None,
        lacks(front, sep) && text@ == front.push(sep) + back ==> first is Some && (first->0).0@ == front
            && (first->0).1@ == back,
        lacks(back, sep) && text@ == front.push(sep) + back ==> last is Some && (last->0).0@ == front
            && (last->0).1@ == back,
        all@.len() == pieces(text@, sep).len(),
        forall|i: int| 0 <= i < all@.len() ==> (#[trigger] all@[i])@ == pieces(text@, sep)[i],
{
    if is_blank(front) && is_blank(back) && middle.len() > 0 && !is_space(middle.first())
        && !is_space(middle.last()) {
        crate::laws::wording::trimming_takes_both_ends(front, middle, back);
    }
    if is_blank(text@) {
        crate::text::lemma_blank_trims_to_nothing(text@);
    }
    if lacks(text@, sep) {
        a_text_is_cut_at_the_first(text@, sep, Seq::empty());
        a_text_is_cut_at_the_last(Seq::empty(), sep, text@);
    }
    if lacks(front, sep) {
        a_text_is_cut_at_the_first(front, sep, back);
    }
    if lacks(back, sep) {
        a_text_is_cut_at_the_last(front, sep, back);
    }
    assert(views(all@) == pieces(text@, sep));
    assert forall|i: int| 0 <= i < all@.len() implies (#[trigger] all@[i])@ == pieces(
        text@,
        sep,
    )[i] by {
        assert(views(all@)[i] == all@[i]@);
    }
}

/// Where the clock is read, the same holds at some instant that it shows.
pub proof fn what_reads_the_clock_does_the_same<F: Fn(&str) -> Option<Percent>>(
    store: &mut Store,
    readings: Readings,
    d: Option<Draft>,
    body: SaveBody,
    id: String,
    made: Draft,
    query: Option<&str>,
    percent_of: F,
    r: Readings,
)
    requires
        old(store).wf(),
        call_ensures(release, (store, &readings), d),
        call_ensures(SaveBody::into_draft, (body, id), made),
        call_ensures(parse_readings::<F>, (query, percent_of), r),
    ensures
        exists|now: i64|
            on_clock(now) && (final(store)@, found(d)) == #[trigger] release_result(
                old(store)@,
                readings@,
                now,
            ),
        made.id@ == id@,
        made.text@ == body.text@,
        reads(body.conversation_id, made@.conversation_id),
        reads(body.agent_id, made@.agent_id),
        reads(body.model, made@.model),
        reads(body.folder_path, made@.folder_path),
        made.created_at == made.updated_at,
        on_clock(made.created_at),
        exists|now: i64|
            on_clock(now) && #[trigger] readings_read(percent_of, str_view(query), now, r@),
        on_clock(r.now_ms),
{
}

/// What the answers are made of.
pub proof fn answers_are_made_so(
    message: &str,
    missing: Reply,
    bad: Reply,
    broken: Reply,
    e: BeingSent,
    refused: Reply,
    said: String,
    found: Option<Draft>,
    one: Reply,
    won: Reply,
)
    requires
        call_ensures(not_found, (), missing),
        call_ensures(bad_request, (message,), bad),
        call_ensures(fail, (message,), broken),
        call_ensures(conflict, (e,), refused),
        call_ensures(BeingSent::message, (&e,), said),
        call_ensures(one_reply, (found,), one),
        call_ensures(claim_reply, (found,), won),
    ensures
        complains(missing@, 404, "no such draft"@),
        complains(bad@, 400, message@),
        complains(broken@, 500, message@),
        said@ == "draft "@ + e.id@ + " is being sent"@,
        complains(refused@, 409, said@),
        found matches Some(d) ==> shows(one@, d@) && shows(won@, d@),
        found is None ==> complains(one@, 404, "no such draft"@) && complains(
            won@,
            409,
            "draft is already being sent"@,
        ),
{
}

/// What is answered to a save and to a condition, by what became of it.
pub proof fn outcomes_are_answered_so(
    r: Result<Option<Draft>, BeingSent>,
    saved: Reply,
    armed: Reply,
)
    requires
        call_ensures(save_reply, (r,), saved),
        call_ensures(trigger_reply, (r,), armed),
    ensures
        r matches Ok(Some(d)) ==> shows(saved@, d@) && shows(armed@, d@),
        r matches Ok(None) ==> saved.status == 200 && (saved@.body matches BodyView::Draft(d)
            && d is None) && complains(armed@, 404, "no such draft"@),
        r matches Err(e) ==> complains(saved@, 409, "draft "@ + e.id@ + " is being sent"@)
            && complains(armed@, 409, "draft "@ + e.id@ + " is being sent"@),
{
}

/// A usage reading is cut at its last colon, and needs an agent; a time is said where there is one.
pub proof fn readings_and_times_are_said_so(
    value: &str,
    agent: Seq<char>,
    percent: Seq<char>,
    r: Option<(String, String)>,
    time: Option<String>,
    line: String,
)
    requires
        call_ensures(usage_reading, (value,), r),
        call_ensures(sending_at, (time,), line),
    ensures
        value@ == agent.push(':') + percent && lacks(percent, ':') ==> (r is Some <==> agent.len()
            > 0) && (r is Some ==> (r->0).0@ == agent && (r->0).1@ == percent),
        lacks(value@, ':') ==> r is None,
        time matches Some(t) ==> line@ == "Sending at "@ + t@,
        time is None ==> line@ == "Sending at a set time"@,
{
    if lacks(percent, ':') {
        a_text_is_cut_at_the_last(agent, ':', percent);
    }
    if lacks(value@, ':') {
        a_text_is_cut_at_the_last(Seq::empty(), ':', value@);
    }
}

} // verus!
