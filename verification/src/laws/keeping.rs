//! What holds of keeping: what is in the outbox, in the table it is kept in, and in the
//! settings.

use vstd::prelude::*;

use crate::api::{floored, id_char, valid_id};
use crate::auth::{admitted, configured, presented, scheme};
use crate::laws::changes::Change;
use crate::models::{
    first_line, preview_line, state_name_round_trip, DraftView, Settings, State,
};
use crate::query::limit_of;
use crate::store::{
    describes, holds, lemma_place, place, record_round_trip, stands_for, DraftRecord, StoreView,
};
use crate::text::{
    is_blank, is_space, lemma_blank_trims_to_nothing, pieces, trim_end, trim_start, trimmed,
};

verus! {

/// Every draft has a text.
pub open spec fn all_have_text(s: StoreView) -> bool {
    forall|i: int| 0 <= i < s.rows.len() ==> !is_blank((#[trigger] s.rows[i]).text)
}

/// There is never an empty draft in the outbox: where every draft has a text, every draft has
/// one whatever happens.
pub proof fn no_draft_is_ever_empty(s: StoreView, change: Change, now: i64)
    requires
        all_have_text(s),
    ensures
        all_have_text(s.after(change, now)),
{
    let t = s.after(change, now);
    assert forall|i: int| 0 <= i < t.rows.len() implies !is_blank((#[trigger] t.rows[i]).text) by {
        match change {
            Change::Save { draft } => {
                if holds(s.rows, draft.id) {
                    let p = place(s.rows, draft.id);
                    assert(s.rows[p].id == draft.id);
                    if is_blank(draft.text) {
                        let i0 = if i < p { i } else { i + 1 };
                        assert(t.rows[i] == s.rows[i0]);
                    } else if i != p {
                        assert(t.rows[i] == s.rows[i]);
                    } else {
                        assert(!is_blank(s.rows[p].text));
                    }
                } else if i < s.rows.len() {
                    assert(t.rows[i] == s.rows[i]);
                }
            },
            Change::SetTrigger { id, .. } => {
                lemma_text_at(s, id, i);
            },
            Change::Claim { id } => {
                lemma_text_at(s, id, i);
            },
            Change::Sent { id, .. } => {
                lemma_text_at(s, id, i);
            },
            Change::Failed { id, .. } => {
                lemma_text_at(s, id, i);
            },
            Change::Delete { id } => {
                if holds(s.rows, id) {
                    let p = place(s.rows, id);
                    assert(s.rows[p].id == id);
                    let i0 = if i < p { i } else { i + 1 };
                    assert(t.rows[i] == s.rows[i0]);
                } else {
                    assert(t.rows[i] == s.rows[i]);
                }
            },
            Change::DeleteAll => {},
            Change::Observe { readings } => {
                assert(t.rows[i].text == s.rows[i].text);
            },
            Change::Configure { settings } => {
                assert(t.rows[i] == s.rows[i]);
            },
        }
    }
}

/// What a change of one row touches.
proof fn lemma_text_at(s: StoreView, id: Seq<char>, i: int)
    requires
        all_have_text(s),
    ensures
        holds(s.rows, id) ==> 0 <= place(s.rows, id) < s.rows.len() && s.rows[place(
            s.rows,
            id,
        )].id == id && !is_blank(s.rows[place(s.rows, id)].text),
        0 <= i < s.rows.len() ==> !is_blank(s.rows[i].text),
{
    if holds(s.rows, id) {
        assert(s.rows[place(s.rows, id)].id == id);
    }
}

/// However much happens to an outbox that began empty, every draft in it has a text and no
/// two have the same id.
pub proof fn an_outbox_stays_sound(settings: Option<Settings>, changes: Seq<(Change, i64)>)
    ensures
        all_have_text(StoreView::nothing(settings).after_all(changes)),
        StoreView::nothing(settings).after_all(changes).wf(),
    decreases changes.len(),
{
    let s = StoreView::nothing(settings);
    crate::laws::changes::ids_stay_distinct_throughout(s, changes);
    if changes.len() > 0 {
        an_outbox_stays_sound(settings, changes.drop_last());
        no_draft_is_ever_empty(
            s.after_all(changes.drop_last()),
            changes.last().0,
            changes.last().1,
        );
    }
}

/// The outbox that is read back from the table is the one that was kept in it.
pub proof fn the_table_is_read_back(s: StoreView, rows: Seq<DraftRecord>, back: StoreView)
    requires
        s.wf(),
        rows.len() == s.rows.len(),
        forall|i: int|
            0 <= i < rows.len() ==> describes(#[trigger] rows[i], s.rows[i]) && rows[i].state@
                == s.state_text(s.rows[i]),
        back.wf(),
        stands_for(rows, back),
        back.settings == s.settings,
    ensures
        back == s,
        forall|i: int, j: int|
            0 <= i < j < rows.len() ==> (#[trigger] rows[i]).id@ != (#[trigger] rows[j]).id@,
{
    assert forall|i: int| 0 <= i < rows.len() implies back.rows[i] == s.rows[i] by {
        lemma_read_back_at(s, rows, i);
        record_round_trip(rows[i], s.rows[i]);
    }
    assert(back.rows =~= s.rows);
    assert forall|i: int, j: int| 0 <= i < j < rows.len() implies (#[trigger] rows[i]).id@ != (
    #[trigger] rows[j]).id@ by {
        assert(describes(rows[i], s.rows[i]));
        assert(describes(rows[j], s.rows[j]));
        assert(s.rows[i].id != s.rows[j].id);
    }
    assert forall|id: Seq<char>|
        s.unknown_states.dom().contains(id) == #[trigger] back.unknown_states.dom().contains(id)
            && (s.unknown_states.dom().contains(id) ==> s.unknown_states[id]
            == back.unknown_states[id]) by {
        if holds(s.rows, id) {
            let p = place(s.rows, id);
            assert(s.rows[p].id == id);
            assert(rows[p].id@ == id);
            lemma_read_back_at(s, rows, p);
        } else {
            assert(s.get(id) is None);
            assert(back.get(id) is None);
        }
    }
    assert(back.unknown_states =~= s.unknown_states);
}

/// What a row has in the place of the state.
proof fn lemma_read_back_at(s: StoreView, rows: Seq<DraftRecord>, i: int)
    requires
        s.wf(),
        rows.len() == s.rows.len(),
        0 <= i < rows.len(),
        describes(rows[i], s.rows[i]),
        rows[i].state@ == s.state_text(s.rows[i]),
    ensures
        State::named(rows[i].state@) == s.rows[i].state,
        State::is_name(rows[i].state@) <==> !s.unknown_states.dom().contains(s.rows[i].id),
{
    state_name_round_trip(s.rows[i].state);
    state_name_round_trip(State::named(rows[i].state@));
    lemma_place(s.rows, s.rows[i].id, i);
}

/// A condition that cannot be read costs the draft its condition, never its text.
pub proof fn an_unreadable_condition_keeps_the_text(row: DraftRecord)
    requires
        row.trigger is None,
    ensures
        row.draft().id == row.id@,
        row.draft().text == row.text@,
        row.draft().trigger is Manual,
{
}

/// Settings that were put are the ones that are read, with a ceiling of at least one; one that
/// was at least one is kept as it is. The drafts stay.
pub proof fn settings_are_read_back(s: StoreView, body: Settings)
    ensures
        ({
            let t = StoreView { settings: Some(floored(body)), ..s };
            &&& t.current_settings() == floored(body)
            &&& t.current_settings().max_concurrent >= 1
            &&& body.max_concurrent >= 1 ==> t.current_settings() == body
            &&& t.rows == s.rows
        }),
{
}

/// Wiping the outbox leaves no draft, and keeps the settings.
pub proof fn wiping_leaves_nothing(s: StoreView, now: i64, id: Seq<char>, limit: nat)
    ensures
        s.after(Change::DeleteAll, now).get(id) is None,
        s.after(Change::DeleteAll, now).open_drafts().len() == 0,
        s.after(Change::DeleteAll, now).sent_drafts(limit).len() == 0,
        s.after(Change::DeleteAll, now).current_settings() == s.current_settings(),
{
    reveal(Seq::filter);
    let t = s.after(Change::DeleteAll, now);
    crate::laws::lists::arranging_keeps_every_draft(
        t.rows.filter(|d: DraftView| !(d.state is Sent)),
        crate::store::Order::Updated,
    );
    crate::laws::lists::arranging_keeps_every_draft(
        t.rows.filter(|d: DraftView| d.state is Sent),
        crate::store::Order::Sent,
    );
}

/// The history answers between one and five hundred rows, whatever is asked for.
pub proof fn a_history_limit_is_in_range(query: Option<Seq<char>>)
    ensures
        1 <= limit_of(query) <= 500,
{
}

/// An id holds no separator: nothing that ends a path segment, a query pair or a name.
pub proof fn an_id_holds_no_separator(id: Seq<char>, i: int)
    requires
        valid_id(id),
        0 <= i < id.len(),
    ensures
        id[i] != '/',
        id[i] != '.',
        id[i] != ':',
        id[i] != '?',
        id[i] != '&',
        id[i] != '=',
        id[i] != '%',
        !is_space(id[i]),
{
    assert(id_char(id[i]));
}

/// Without a configured token nobody is admitted; with one, exactly those who present it.
pub proof fn only_the_exact_token_is_admitted(
    token: Seq<char>,
    raw: Option<Seq<char>>,
    header: Option<Seq<char>>,
)
    ensures
        configured(raw) is None ==> !admitted(presented(header), configured(raw)),
        header is None ==> !admitted(presented(header), configured(raw)),
        admitted(presented(Some(scheme() + token)), configured(raw)) <==> raw == Some(token)
            && token.len() > 0,
{
    let h = scheme() + token;
    assert(h.take(scheme().len() as int) =~= scheme());
    assert(scheme().is_prefix_of(h));
    assert(h.skip(scheme().len() as int) =~= token);
}

/// What is left when the white space in front is taken away.
proof fn lemma_trim_start(s: Seq<char>)
    ensures
        trim_start(s).len() <= s.len(),
        trim_start(s) == s.skip(s.len() - trim_start(s).len()),
        trim_start(s).len() > 0 ==> !is_space(trim_start(s).first()),
        trim_start(s).len() == 0 <==> is_blank(s),
    decreases s.len(),
{
    if s.len() > 0 && is_space(s.first()) {
        let rest = s.drop_first();
        lemma_trim_start(rest);
        let k = rest.len() - trim_start(rest).len();
        assert(rest.skip(k) =~= s.skip(k + 1));
        if is_blank(rest) {
            assert forall|i: int| 0 <= i < s.len() implies is_space(#[trigger] s[i]) by {
                if i > 0 {
                    assert(rest[i - 1] == s[i]);
                    assert(is_space(rest[i - 1]));
                }
            }
        }
        if is_blank(s) {
            assert forall|i: int| 0 <= i < rest.len() implies is_space(#[trigger] rest[i]) by {
                assert(rest[i] == s[i + 1]);
            }
        }
    } else {
        assert(s.skip(0) =~= s);
        if s.len() > 0 {
            assert(!is_space(s[0]));
        }
    }
}

/// What is left when the white space at the end is taken away.
proof fn lemma_trim_end(s: Seq<char>)
    ensures
        trim_end(s).len() <= s.len(),
        trim_end(s) == s.take(trim_end(s).len() as int),
        s.len() > 0 && !is_space(s.first()) ==> trim_end(s).len() > 0,
    decreases s.len(),
{
    if s.len() > 0 && is_space(s.last()) {
        lemma_trim_end(s.drop_last());
        let k = trim_end(s.drop_last()).len() as int;
        assert(s.drop_last().take(k) =~= s.take(k));
        if !is_space(s.first()) {
            assert(s.drop_last().len() > 0);
            assert(s.drop_last().first() == s.first());
        }
    } else {
        assert(s.take(s.len() as int) =~= s);
    }
}

/// A piece does not hold what it was cut at, and holds nothing that the text does not hold.
proof fn lemma_pieces(s: Seq<char>, sep: char, i: int, j: int)
    requires
        0 <= i < pieces(s, sep).len(),
        0 <= j < pieces(s, sep)[i].len(),
    ensures
        pieces(s, sep)[i][j] != sep,
        s.contains(pieces(s, sep)[i][j]),
    decreases s.len(),
{
    let all = pieces(s, sep);
    if s.len() > 0 {
        let front = pieces(s.drop_last(), sep);
        lemma_pieces_some(s.drop_last(), sep);
        if s.last() == sep {
            assert(all =~= front.push(Seq::empty()));
            lemma_pieces(s.drop_last(), sep, i, j);
            let c = front[i][j];
            let k = choose|k: int| 0 <= k < s.drop_last().len() && s.drop_last()[k] == c;
            assert(s[k] == c);
        } else if i < front.len() - 1 || j < front[i].len() {
            lemma_pieces(s.drop_last(), sep, i, j);
            let c = front[i][j];
            let k = choose|k: int| 0 <= k < s.drop_last().len() && s.drop_last()[k] == c;
            assert(s[k] == c);
            assert(all[i][j] == c);
        } else {
            assert(all[i][j] == s.last());
            assert(s[s.len() - 1] == s.last());
        }
    }
}

/// There is always a piece.
proof fn lemma_pieces_some(s: Seq<char>, sep: char)
    ensures
        pieces(s, sep).len() > 0,
    decreases s.len(),
{
    if s.len() > 0 {
        lemma_pieces_some(s.drop_last(), sep);
    }
}

/// Every character of a text but those it is cut at is in a piece.
proof fn lemma_in_a_piece(s: Seq<char>, sep: char, k: int) -> (at: (int, int))
    requires
        0 <= k < s.len(),
        s[k] != sep,
    ensures
        0 <= at.0 < pieces(s, sep).len(),
        0 <= at.1 < pieces(s, sep)[at.0].len(),
        pieces(s, sep)[at.0][at.1] == s[k],
    decreases s.len(),
{
    let front = pieces(s.drop_last(), sep);
    lemma_pieces_some(s.drop_last(), sep);
    if k == s.len() - 1 {
        (front.len() - 1, front.last().len() as int)
    } else {
        let at = lemma_in_a_piece(s.drop_last(), sep, k);
        assert(pieces(s, sep)[at.0][at.1] == front[at.0][at.1]);
        at
    }
}

/// The first line that is not blank is one of the lines, and is blank only where all are.
proof fn lemma_first_line(lines: Seq<Seq<char>>)
    ensures
        first_line(lines).len() > 0 ==> lines.contains(first_line(lines)),
        is_blank(first_line(lines)) <==> (forall|i: int|
            0 <= i < lines.len() ==> is_blank(#[trigger] lines[i])),
    decreases lines.len(),
{
    if lines.len() > 0 {
        if is_blank(lines.first()) {
            let rest = lines.drop_first();
            lemma_first_line(rest);
            if first_line(rest).len() > 0 {
                let i = choose|i: int| 0 <= i < rest.len() && rest[i] == first_line(rest);
                assert(lines[i + 1] == first_line(rest));
            }
            if is_blank(first_line(lines)) {
                assert forall|i: int| 0 <= i < lines.len() implies is_blank(
                    #[trigger] lines[i],
                ) by {
                    if i > 0 {
                        assert(rest[i - 1] == lines[i]);
                        assert(is_blank(rest[i - 1]));
                    }
                }
            } else {
                let i = choose|i: int| 0 <= i < rest.len() && !is_blank(#[trigger] rest[i]);
                assert(lines[i + 1] == rest[i]);
                assert(!is_blank(lines[i + 1]));
            }
        } else {
            assert(lines[0] == lines.first());
            assert(lines.contains(lines[0]));
        }
    }
}

/// A preview is one line of at most eighty characters and an ellipsis, without white space in
/// front, and there is something in it exactly where there is something in the text.
pub proof fn a_preview_is_one_short_line(text: Seq<char>)
    ensures
        preview_line(text).len() <= 81,
        forall|i: int| 0 <= i < preview_line(text).len() ==> (#[trigger] preview_line(text)[i])
            != '\n',
        preview_line(text).len() > 0 ==> !is_space(preview_line(text).first()),
        preview_line(text).len() == 0 <==> is_blank(text),
{
    let lines = pieces(text, '\n');
    let line = first_line(lines);
    lemma_first_line(lines);
    let t = trimmed(line);
    lemma_trimmed_within(line);
    assert forall|i: int| 0 <= i < preview_line(text).len() implies (
    #[trigger] preview_line(text)[i]) != '\n' by {
        if i < t.len() && i < 80 {
            let c = t[i];
            let k = choose|k: int| 0 <= k < line.len() && line[k] == c;
            let l = choose|l: int| 0 <= l < lines.len() && lines[l] == line;
            lemma_pieces(text, '\n', l, k);
        }
    }
    if is_blank(text) {
        assert forall|i: int| 0 <= i < lines.len() implies is_blank(#[trigger] lines[i]) by {
            assert forall|j: int| 0 <= j < lines[i].len() implies is_space(
                #[trigger] lines[i][j],
            ) by {
                lemma_pieces(text, '\n', i, j);
                let k = choose|k: int| 0 <= k < text.len() && text[k] == lines[i][j];
                assert(is_space(text[k]));
            }
        }
        lemma_blank_trims_to_nothing(line);
    } else {
        let k = choose|k: int| 0 <= k < text.len() && !is_space(#[trigger] text[k]);
        assert(is_space('\n'));
        let at = lemma_in_a_piece(text, '\n', k);
        assert(!is_space(lines[at.0][at.1]));
        assert(!is_blank(lines[at.0]));
    }
}

/// What trimming leaves lies in the text, begins with no white space, and is there where
/// the text is not blank.
proof fn lemma_trimmed_within(s: Seq<char>)
    ensures
        forall|i: int| 0 <= i < trimmed(s).len() ==> s.contains(#[trigger] trimmed(s)[i]),
        trimmed(s).len() > 0 ==> !is_space(trimmed(s).first()),
        !is_blank(s) ==> trimmed(s).len() > 0,
{
    lemma_trim_start(s);
    lemma_trim_end(trim_start(s));
    let front = trim_start(s);
    let t = trim_end(front);
    assert forall|i: int| 0 <= i < t.len() implies s.contains(#[trigger] t[i]) by {
        assert(t[i] == front[i]);
        assert(front[i] == s[s.len() - front.len() + i]);
    }
}

} // verus!
