//! What texts say: names, numbers, lines and previews.

use vstd::prelude::*;

use crate::auth::port_of;
use crate::dispatch::{core_base, refused_line};
use crate::models::{
    first_line, preview_line, shortened, time_line, utc_text, DraftView, Source, State,
    TriggerView,
};
use crate::number::{
    after_plus, all_digits, decimal, digit, digit_value, digits_value, is_digit, unsigned,
};
use crate::store::BeingSent;
use crate::text::{cut_first, cut_last, is_blank, is_space, pieces, trim_end, trim_start, trimmed};

verus! {

/// The states by their names, in the table and to a person.
pub proof fn states_have_these_names()
    ensures
        State::Draft.name() == "draft"@,
        State::Armed.name() == "armed"@,
        State::Sending.name() == "sending"@,
        State::Sent.name() == "sent"@,
        State::Failed.name() == "failed"@,
        State::Draft.title() == "Draft"@,
        State::Armed.title() == "Queued"@,
        State::Sending.title() == "Sending"@,
        State::Sent.title() == "Sent"@,
        State::Failed.title() == "Failed to send"@,
{
}

/// The sources by their names.
pub proof fn sources_have_these_names()
    ensures
        Source::ComposerAutosave.name() == "composer-autosave"@,
        Source::Manual.name() == "manual"@,
        Source::AutoQueue.name() == "auto-queue"@,
{
}

/// What is the name of no state reads as idle, and what is the name of no source as written by
/// hand.
pub proof fn strange_names_read_as_the_plainest(raw: Seq<char>)
    ensures
        (forall|s: State| (#[trigger] s.name()) != raw) ==> State::named(raw) is Draft,
        (forall|s: Source| (#[trigger] s.name()) != raw) ==> Source::named(raw) is Manual,
        forall|s: State| (#[trigger] s.name()) == raw ==> State::named(raw) == s,
        forall|s: Source| (#[trigger] s.name()) == raw ==> Source::named(raw) == s,
{
    if forall|s: State| (#[trigger] s.name()) != raw {
        assert(State::Armed.name() != raw);
        assert(State::Sending.name() != raw);
        assert(State::Sent.name() != raw);
        assert(State::Failed.name() != raw);
    }
    if forall|s: Source| (#[trigger] s.name()) != raw {
        assert(Source::ComposerAutosave.name() != raw);
        assert(Source::AutoQueue.name() != raw);
    }
    assert forall|s: State| (#[trigger] s.name()) == raw implies State::named(raw) == s by {
        crate::models::state_name_round_trip(s);
    }
    assert forall|s: Source| (#[trigger] s.name()) == raw implies Source::named(raw) == s by {
        crate::models::source_name_round_trip(s);
    }
}

/// A number that is written down is read back, where it may be that large, and there is no zero
/// in front of it but its own.
pub proof fn a_number_is_read_back(n: nat, max: nat)
    ensures
        digits_value(decimal(n)) == n,
        n <= max ==> unsigned(decimal(n), max) == Some(n),
        n > max ==> unsigned(decimal(n), max) is None,
        n > 0 ==> decimal(n)[0] != '0',
        n < 10 ==> decimal(n).len() == 1 && decimal(n)[0] as u32 == 48 + n,
        n >= 10 ==> decimal(n).last() as u32 == 48 + n % 10 && decimal(n).drop_last() == decimal(
            n / 10,
        ),
{
    lemma_decimal(n);
    let s = decimal(n);
    assert(s[0] != '+') by {
        assert(is_digit(s[0]));
    }
    if n >= 10 {
        assert(s.drop_last() =~= decimal(n / 10));
    }
}

/// A number in decimal is digits that stand for it.
proof fn lemma_decimal(n: nat)
    ensures
        decimal(n).len() > 0,
        all_digits(decimal(n)),
        digits_value(decimal(n)) == n,
        n > 0 ==> decimal(n)[0] != '0',
    decreases n,
{
    let s = decimal(n);
    if n < 10 {
        let c = digit(n);
        assert(c as u32 == 48 + n);
        assert(s.drop_last() =~= Seq::empty());
        assert(digits_value(s) == digits_value(s.drop_last()) * 10 + digit_value(s.last()));
        assert(s.last() == c);
    } else {
        lemma_decimal(n / 10);
        let front = decimal(n / 10);
        let c = digit(n % 10);
        assert(c as u32 == 48 + n % 10);
        assert(s.drop_last() =~= front);
        assert forall|i: int| 0 <= i < s.len() implies is_digit(#[trigger] s[i]) by {
            if i < front.len() {
                assert(is_digit(front[i]));
            }
        }
        assert(s[0] == front[0]);
    }
}

/// Only a row of digits, with a plus before it or not, is a number.
pub proof fn only_digits_are_a_number(s: Seq<char>, max: nat)
    requires
        unsigned(s, max) is Some,
    ensures
        unsigned(s, max)->0 <= max,
        s.len() > 0,
        forall|i: int| 0 < i < s.len() ==> '0' <= #[trigger] s[i] <= '9',
        s[0] == '+' || '0' <= s[0] <= '9',
        s[0] == '+' ==> s.len() > 1,
        s[0] == '+' ==> unsigned(s.drop_first(), max) == unsigned(s, max),
{
    let d = after_plus(s);
    if s[0] == '+' {
        assert forall|i: int| 0 < i < s.len() implies '0' <= #[trigger] s[i] <= '9' by {
            assert(is_digit(d[i - 1]));
        }
        assert(is_digit(d[0]));
        assert(after_plus(d) == d);
    } else {
        assert(is_digit(d[0]));
        assert forall|i: int| 0 < i < s.len() implies '0' <= #[trigger] s[i] <= '9' by {
            assert(is_digit(d[i]));
        }
    }
}

/// A port is any number below 65536 in decimal, and Core is called on this machine at that port.
pub proof fn a_port_is_read_back(port: u16, n: nat)
    ensures
        port_of(Some(decimal(port as nat))) == Some(port),
        n > 65535 ==> port_of(Some(decimal(n))) is None,
        port_of(None) is None,
        core_base(port) == "http://127.0.0.1:"@ + decimal(port as nat),
{
    a_number_is_read_back(port as nat, u16::MAX as nat);
    a_number_is_read_back(n, u16::MAX as nat);
}

/// The line under a queued draft says what it waits for.
pub proof fn a_queued_draft_says_what_it_waits_for(d: DraftView)
    requires
        d.state is Armed,
    ensures
        d.row().state_label == "Queued"@,
        d.trigger is Manual ==> d.row().waiting_for.len() == 0,
        d.trigger matches TriggerView::Concurrency { below } ==> if below == 1 {
            d.row().waiting_for == "Waiting for nothing to be running"@
        } else {
            d.row().waiting_for == "Waiting for fewer than "@ + decimal(below as nat) + " runs"@
        },
        d.trigger is AllDone && d.seen_busy ==> d.row().waiting_for
            == "Waiting for every agent to finish"@,
        d.trigger is AllDone && !d.seen_busy ==> d.row().waiting_for
            == "Waiting for agents to start, then finish"@,
        d.trigger matches TriggerView::UsageReset { agent_id, below_percent }
            ==> d.row().waiting_for == "Waiting for "@ + agent_id + " to drop under "@
            + below_percent.label() + "% used"@,
        d.trigger matches TriggerView::At { epoch_ms } ==> if -8_334_601_228_800_000 <= epoch_ms
            <= 8_210_266_876_799_999 {
            d.row().waiting_for == "Sending at "@ + utc_text(epoch_ms, "%Y-%m-%d %H:%M UTC"@)
        } else {
            d.row().waiting_for == "Sending at a set time"@
        },
{
}

/// The line under a failed draft says why, and under one that neither waits nor failed there is
/// none. Every row shows its draft.
pub proof fn a_row_says_where_its_draft_stands(d: DraftView)
    ensures
        d.row().draft == d,
        d.row().preview == preview_line(d.text),
        d.row().state_label == d.state.title(),
        d.state is Failed ==> d.row().waiting_for == (match d.error {
            Some(e) => e,
            None => "Send failed"@,
        }),
        d.state is Draft || d.state is Sending || d.state is Sent ==> d.row().waiting_for.len()
            == 0,
{
}

/// What is said of a refusal.
pub proof fn refusals_say_what_was_refused(
    id: Seq<char>,
    cap: Seq<char>,
    error: Seq<char>,
    time: Seq<char>,
)
    ensures
        BeingSent::text(id) == "draft "@ + id + " is being sent"@,
        refused_line(cap, Some(error)) == cap + ": "@ + error,
        refused_line(cap, None) == cap + ": "@ + "call refused"@,
        time_line(Some(time)) == "Sending at "@ + time,
        time_line(None) == "Sending at a set time"@,
{
}

/// No such character in the text.
pub open spec fn lacks(s: Seq<char>, c: char) -> bool {
    forall|i: int| 0 <= i < s.len() ==> (#[trigger] s[i]) != c
}

/// A text is cut at its first separator where what stands before it has none.
pub proof fn a_text_is_cut_at_the_first(before: Seq<char>, sep: char, after: Seq<char>)
    requires
        lacks(before, sep),
    ensures
        cut_first(before.push(sep) + after, sep) == Some((before, after)),
        cut_first(before, sep) is None,
    decreases before.len(),
{
    let s = before.push(sep) + after;
    if before.len() == 0 {
        assert(s.first() == sep);
        assert(s.drop_first() =~= after);
        assert(before =~= Seq::empty());
    } else {
        let rest = before.drop_first();
        assert(before[0] != sep);
        assert forall|i: int| 0 <= i < rest.len() implies (#[trigger] rest[i]) != sep by {
            assert(rest[i] == before[i + 1]);
        }
        a_text_is_cut_at_the_first(rest, sep, after);
        assert(s.drop_first() =~= rest.push(sep) + after);
        assert(s.first() == before[0]);
        assert(seq![before[0]] + rest =~= before);
    }
}

/// A text is cut at its last separator where what stands behind it has none.
pub proof fn a_text_is_cut_at_the_last(before: Seq<char>, sep: char, after: Seq<char>)
    requires
        lacks(after, sep),
    ensures
        cut_last(before.push(sep) + after, sep) == Some((before, after)),
        cut_last(after, sep) is None,
    decreases after.len(),
{
    let s = before.push(sep) + after;
    if after.len() == 0 {
        assert(s =~= before.push(sep));
        assert(s.drop_last() =~= before);
        assert(after =~= Seq::empty());
    } else {
        let rest = after.drop_last();
        assert(after[after.len() - 1] != sep);
        assert forall|i: int| 0 <= i < rest.len() implies (#[trigger] rest[i]) != sep by {
            assert(rest[i] == after[i]);
        }
        a_text_is_cut_at_the_last(before, sep, rest);
        assert(s.drop_last() =~= before.push(sep) + rest);
        assert(s.last() == after.last());
        assert(rest.push(after.last()) =~= after);
    }
}

/// The pieces of two texts with a separator between them are the pieces of the one and then those
/// of the other; a text without a separator is one piece.
pub proof fn pieces_add_up(a: Seq<char>, sep: char, b: Seq<char>)
    ensures
        pieces(a.push(sep) + b, sep) == pieces(a, sep) + pieces(b, sep),
        pieces(a, sep).len() > 0,
        lacks(a, sep) ==> pieces(a, sep) == seq![a],
    decreases a.len() + b.len(),
{
    lemma_some_pieces(a, sep);
    lemma_some_pieces(b, sep);
    let s = a.push(sep) + b;
    if b.len() == 0 {
        assert(s =~= a.push(sep));
        assert(s.drop_last() =~= a);
        assert(b =~= Seq::empty());
        assert(pieces(s, sep) =~= pieces(a, sep) + seq![Seq::<char>::empty()]);
    } else {
        let front = b.drop_last();
        pieces_add_up(a, sep, front);
        lemma_some_pieces(front, sep);
        assert(s.drop_last() =~= a.push(sep) + front);
        assert(s.last() == b.last());
        assert(pieces(s, sep) =~= pieces(a, sep) + pieces(b, sep));
    }
    if lacks(a, sep) {
        lemma_one_piece(a, sep);
    }
}

/// A text without a separator is one piece.
proof fn lemma_one_piece(a: Seq<char>, sep: char)
    requires
        lacks(a, sep),
    ensures
        pieces(a, sep) == seq![a],
    decreases a.len(),
{
    if a.len() > 0 {
        let front = a.drop_last();
        assert(a[a.len() - 1] != sep);
        assert forall|i: int| 0 <= i < front.len() implies (#[trigger] front[i]) != sep by {
            assert(front[i] == a[i]);
        }
        lemma_one_piece(front, sep);
        assert(front.push(a.last()) =~= a);
        assert(pieces(a, sep) =~= seq![a]);
    } else {
        assert(a =~= Seq::empty());
        assert(pieces(a, sep) =~= seq![a]);
    }
}

/// There is always a piece.
proof fn lemma_some_pieces(s: Seq<char>, sep: char)
    ensures
        pieces(s, sep).len() > 0,
    decreases s.len(),
{
    if s.len() > 0 {
        lemma_some_pieces(s.drop_last(), sep);
    }
}

/// Trimming takes away the white space at both ends and nothing else.
pub proof fn trimming_takes_both_ends(front: Seq<char>, core: Seq<char>, back: Seq<char>)
    requires
        is_blank(front),
        is_blank(back),
        core.len() > 0,
        !is_space(core.first()),
        !is_space(core.last()),
    ensures
        trimmed(front + core + back) == core,
{
    lemma_trim_front(front, core + back);
    assert(front + core + back =~= front + (core + back));
    assert((core + back).first() == core.first());
    lemma_trim_back(core, back);
}

/// White space in front is taken away.
proof fn lemma_trim_front(front: Seq<char>, rest: Seq<char>)
    requires
        is_blank(front),
        rest.len() > 0,
        !is_space(rest.first()),
    ensures
        trim_start(front + rest) == rest,
    decreases front.len(),
{
    let s = front + rest;
    if front.len() == 0 {
        assert(s =~= rest);
    } else {
        assert(is_space(front[0]));
        assert forall|i: int| 0 <= i < front.drop_first().len() implies is_space(
            #[trigger] front.drop_first()[i],
        ) by {
            assert(is_space(front[i + 1]));
        }
        lemma_trim_front(front.drop_first(), rest);
        assert(s.first() == front[0]);
        assert(s.drop_first() =~= front.drop_first() + rest);
    }
}

/// White space at the end is taken away.
proof fn lemma_trim_back(rest: Seq<char>, back: Seq<char>)
    requires
        is_blank(back),
        rest.len() > 0,
        !is_space(rest.last()),
    ensures
        trim_end(rest + back) == rest,
    decreases back.len(),
{
    let s = rest + back;
    if back.len() == 0 {
        assert(s =~= rest);
    } else {
        assert(is_space(back[back.len() - 1]));
        assert forall|i: int| 0 <= i < back.drop_last().len() implies is_space(
            #[trigger] back.drop_last()[i],
        ) by {
            assert(is_space(back[i]));
        }
        lemma_trim_back(rest, back.drop_last());
        assert(s.last() == back.last());
        assert(s.drop_last() =~= rest + back.drop_last());
    }
}

/// The first line that is not blank is the first of the later ones where the earlier are blank.
proof fn lemma_first_line_behind(blank: Seq<Seq<char>>, rest: Seq<Seq<char>>)
    requires
        forall|i: int| 0 <= i < blank.len() ==> is_blank(#[trigger] blank[i]),
        rest.len() > 0,
        !is_blank(rest.first()),
    ensures
        first_line(blank + rest) == rest.first(),
    decreases blank.len(),
{
    let all = blank + rest;
    if blank.len() == 0 {
        assert(all =~= rest);
    } else {
        assert(is_blank(blank[0]));
        assert(all.first() == blank[0]);
        assert forall|i: int| 0 <= i < blank.drop_first().len() implies is_blank(
            #[trigger] blank.drop_first()[i],
        ) by {
            assert(is_blank(blank[i + 1]));
        }
        lemma_first_line_behind(blank.drop_first(), rest);
        assert(all.drop_first() =~= blank.drop_first() + rest);
    }
}

/// The pieces of a blank text are blank.
proof fn lemma_blank_pieces(s: Seq<char>, sep: char)
    requires
        is_blank(s),
    ensures
        forall|i: int| 0 <= i < pieces(s, sep).len() ==> is_blank(#[trigger] pieces(s, sep)[i]),
    decreases s.len(),
{
    lemma_some_pieces(s, sep);
    if s.len() > 0 {
        let front = s.drop_last();
        assert forall|i: int| 0 <= i < front.len() implies is_space(#[trigger] front[i]) by {
            assert(is_space(s[i]));
        }
        lemma_blank_pieces(front, sep);
        lemma_some_pieces(front, sep);
        let before = pieces(front, sep);
        let all = pieces(s, sep);
        assert(is_space(s[s.len() - 1]));
        assert forall|i: int| 0 <= i < all.len() implies is_blank(#[trigger] all[i]) by {
            if i < before.len() {
                assert(is_blank(before[i]));
            }
        }
    }
}

/// What a line is shown as: whole up to eighty characters, else its first eighty and an ellipsis.
pub open spec fn shown_as(core: Seq<char>, shown: Seq<char>) -> bool {
    if core.len() <= 80 {
        shown == core
    } else {
        &&& shown.len() == 81
        &&& shown[80] == '\u{2026}'
        &&& forall|i: int| 0 <= i < 80 ==> #[trigger] shown[i] == core[i]
    }
}

/// A preview is what stands on the first line that has anything on it: the blank lines before it,
/// the white space at its ends and everything behind it are left out.
pub proof fn a_preview_is_the_first_line_with_anything_on_it(
    blank: Seq<char>,
    front: Seq<char>,
    core: Seq<char>,
    back: Seq<char>,
    rest: Seq<char>,
)
    requires
        is_blank(blank),
        is_blank(front),
        is_blank(back),
        core.len() > 0,
        !is_space(core.first()),
        !is_space(core.last()),
        lacks(front, '\n'),
        lacks(core, '\n'),
        lacks(back, '\n'),
    ensures
        shown_as(core, preview_line(front + core + back)),
        shown_as(core, preview_line((front + core + back).push('\n') + rest)),
        shown_as(core, preview_line(blank.push('\n') + (front + core + back))),
        shown_as(core, preview_line(blank.push('\n') + ((front + core + back).push('\n') + rest))),
{
    let line = front + core + back;
    trimming_takes_both_ends(front, core, back);
    assert forall|i: int| 0 <= i < line.len() implies (#[trigger] line[i]) != '\n' by {
        if i < front.len() {
            assert(line[i] == front[i]);
        } else if i < front.len() + core.len() {
            assert(line[i] == core[i - front.len()]);
        } else {
            assert(line[i] == back[i - front.len() - core.len()]);
        }
    }
    assert(line[front.len() as int] == core.first());
    assert(!is_space(line[front.len() as int]));
    assert(!is_blank(line));
    lemma_one_piece(line, '\n');
    pieces_add_up(line, '\n', rest);
    pieces_add_up(blank, '\n', line);
    pieces_add_up(blank, '\n', line.push('\n') + rest);
    lemma_blank_pieces(blank, '\n');
    let none = Seq::<Seq<char>>::empty();
    let one = seq![line];
    let more = seq![line] + pieces(rest, '\n');
    assert(one.first() == line);
    assert(more.first() == line);
    lemma_first_line_behind(none, one);
    lemma_first_line_behind(none, more);
    lemma_first_line_behind(pieces(blank, '\n'), one);
    lemma_first_line_behind(pieces(blank, '\n'), more);
    assert(none + one =~= one);
    assert(none + more =~= more);
    assert(shown_as(core, shortened(core)));
}

/// Of the characters of a keyboard, the space, the tab and the line ends are white space, and no
/// letter, digit or sign is.
pub proof fn white_space_is_what_cannot_be_seen(c: char)
    ensures
        c == ' ' || c == '\t' || c == '\n' || c == '\r' ==> is_space(c),
        '!' <= c <= '~' ==> !is_space(c),
{
}

} // verus!
