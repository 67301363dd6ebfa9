//! What the dispatcher says in a query string.

use vstd::prelude::*;
use vstd::string::*;
use vstd::utf8::*;

use crate::models::{usage_view, Readings, ReadingsView};
use crate::number::{parse_unsigned, unsigned};
use crate::percent::Percent;
use crate::store::{now_ms, on_clock};
use crate::text::{
    cut_first, cut_last, cut_view, opt_view, pieces, same, split_all, split_first, split_last,
    str_view, views,
};

verus! {

/// The number that a hexadecimal digit stands for.
pub open spec fn hex_value(b: u8) -> Option<u8> {
    if 0x30 <= b <= 0x39 {
        Some((b - 0x30) as u8)
    } else if 0x41 <= b <= 0x46 {
        Some((b - 0x41 + 10) as u8)
    } else if 0x61 <= b <= 0x66 {
        Some((b - 0x61 + 10) as u8)
    } else {
        None
    }
}

/// The byte that two hexadecimal digits behind a `%` stand for.
pub open spec fn escaped_byte(a: u8, b: u8) -> Option<u8> {
    match (hex_value(a), hex_value(b)) {
        (Some(high), Some(low)) => Some((high * 16 + low) as u8),
        _ => None,
    }
}

/// The bytes with every escape replaced by what it stands for and every `+` by a space. An
/// escape that stands for nothing is left as written.
pub open spec fn unescaped(s: Seq<u8>) -> Seq<u8>
    decreases s.len(),
{
    if s.len() == 0 {
        s
    } else if s[0] == 0x25 && s.len() > 2 && escaped_byte(s[1], s[2]) is Some {
        seq![escaped_byte(s[1], s[2])->0] + unescaped(s.skip(3))
    } else if s[0] == 0x2b {
        seq![0x20u8] + unescaped(s.skip(1))
    } else {
        seq![s[0]] + unescaped(s.skip(1))
    }
}

/// What `String::from_utf8_lossy` makes of some bytes.
pub uninterp spec fn utf8_lossy(bytes: Seq<u8>) -> Seq<char>;

/// `String::from_utf8_lossy`, made a `String`: the text is a function of the bytes, and it
/// is the text that they encode where they encode one.
#[verifier::external_body]
fn lossy_text(bytes: &[u8]) -> (r: String)
    ensures
        r@ == utf8_lossy(bytes@),
        valid_utf8(bytes@) ==> r@ == decode_utf8(bytes@),
{
    String::from_utf8_lossy(bytes).into_owned()
}

/// The number that a hexadecimal digit stands for.
fn hex_digit(b: u8) -> (r: Option<u8>)
    ensures
        r == hex_value(b),
        r matches Some(n) ==> n < 16,
{
    if 0x30 <= b && b <= 0x39 {
        Some(b - 0x30)
    } else if 0x41 <= b && b <= 0x46 {
        Some(b - 0x41 + 10)
    } else if 0x61 <= b && b <= 0x66 {
        Some(b - 0x61 + 10)
    } else {
        None
    }
}

/// The byte that stands behind a `%`.
fn escape_of(a: u8, b: u8) -> (r: Option<u8>)
    ensures
        r == escaped_byte(a, b),
{
    match (hex_digit(a), hex_digit(b)) {
        (Some(high), Some(low)) => Some(high * 16 + low),
        _ => None,
    }
}

/// Replace the escapes.
pub fn unescape(bytes: &[u8]) -> (out: Vec<u8>)
    ensures
        out@ == unescaped(bytes@),
{
    let mut out: Vec<u8> = Vec::new();
    let mut i: usize = 0;
    proof {
        assert(bytes@.skip(0) =~= bytes@);
        assert(out@ + unescaped(bytes@) =~= unescaped(bytes@));
    }
    while i < bytes.len()
        invariant
            i <= bytes@.len(),
            out@ + unescaped(bytes@.skip(i as int)) == unescaped(bytes@),
        decreases bytes.len() - i,
    {
        let b: u8 = bytes[i];
        let ghost rest = bytes@.skip(i as int);
        let ghost before = out@;
        proof {
            assert(rest.len() == bytes@.len() - i);
            assert(rest[0] == b);
            assert(rest.skip(1) =~= bytes@.skip(i + 1));
        }
        if b == 0x25 && bytes.len() - i > 2 {
            proof {
                assert(rest.skip(3) =~= bytes@.skip(i + 3));
                assert(rest[1] == bytes@[i + 1]);
                assert(rest[2] == bytes@[i + 2]);
            }
            match escape_of(bytes[i + 1], bytes[i + 2]) {
                Some(byte) => {
                    out.push(byte);
                    proof {
                        assert(out@ + unescaped(rest.skip(3)) =~= before + (seq![byte] + unescaped(
                            rest.skip(3),
                        )));
                    }
                    i = i + 3;
                },
                None => {
                    out.push(b);
                    proof {
                        assert(out@ + unescaped(rest.skip(1)) =~= before + (seq![b] + unescaped(
                            rest.skip(1),
                        )));
                    }
                    i = i + 1;
                },
            }
        } else if b == 0x2b {
            out.push(0x20);
            proof {
                assert(out@ + unescaped(rest.skip(1)) =~= before + (seq![0x20u8] + unescaped(
                    rest.skip(1),
                )));
            }
            i = i + 1;
        } else {
            out.push(b);
            proof {
                assert(out@ + unescaped(rest.skip(1)) =~= before + (seq![b] + unescaped(
                    rest.skip(1),
                )));
            }
            i = i + 1;
        }
    }
    proof {
        assert(bytes@.skip(bytes@.len() as int) =~= Seq::empty());
        assert(out@ + unescaped(Seq::empty()) =~= out@);
    }
    out
}

/// A value of a query string as it was meant.
pub open spec fn decoded(raw: Seq<char>) -> Seq<char> {
    utf8_lossy(unescaped(encode_utf8(raw)))
}

/// Minimal percent-decoding for the `usage` values, which carry agent ids that are
/// percent-encoded by the client (`acp%3Agemini-cli`). `+` is a space in a query
/// string; an invalid escape is left as written rather than dropping the reading.
pub fn percent_decode(raw: &str) -> (r: String)
    ensures
        r@ == decoded(raw@),
        valid_utf8(unescaped(encode_utf8(raw@))) ==> r@ == decode_utf8(
            unescaped(encode_utf8(raw@)),
        ),
        plain(raw@) ==> r@ == raw@,
        forall|text: Seq<char>| #[trigger]
            encodes(encode_utf8(raw@), encode_utf8(text)) ==> r@ == text,
{
    let bytes: Vec<u8> = unescape(raw.as_bytes());
    proof {
        assert forall|text: Seq<char>| #[trigger]
            encodes(encode_utf8(raw@), encode_utf8(text)) implies valid_utf8(bytes@)
            && decode_utf8(bytes@) == text by {
            percent_encoding_is_undone(encode_utf8(raw@), encode_utf8(text));
            encode_utf8_valid_utf8(text);
            encode_utf8_decode_utf8(text);
        }
        if plain(raw@) {
            lemma_plain_bytes(raw@);
            plain_bytes_are_left_as_written(encode_utf8(raw@));
            encode_utf8_valid_utf8(raw@);
            encode_utf8_decode_utf8(raw@);
        }
    }
    lossy_text(bytes.as_slice())
}

/// No `%` and no `+`.
pub open spec fn plain(s: Seq<char>) -> bool {
    forall|i: int| 0 <= i < s.len() ==> (#[trigger] s[i]) != '%' && s[i] != '+'
}

/// A byte that stands for itself in a query string.
pub open spec fn plain_byte(b: u8) -> bool {
    b != 0x25 && b != 0x2b
}

/// Bytes with no `%` and no `+` among them stand for themselves.
pub proof fn plain_bytes_are_left_as_written(s: Seq<u8>)
    requires
        forall|i: int| 0 <= i < s.len() ==> plain_byte(#[trigger] s[i]),
    ensures
        unescaped(s) == s,
    decreases s.len(),
{
    if s.len() > 0 {
        assert(plain_byte(s[0]));
        assert forall|i: int| 0 <= i < s.skip(1).len() implies plain_byte(
            #[trigger] s.skip(1)[i],
        ) by {
            assert(plain_byte(s[i + 1]));
        }
        plain_bytes_are_left_as_written(s.skip(1));
        assert(seq![s[0]] + s.skip(1) =~= s);
    }
}

/// A character that is neither `%` nor `+` is written without these bytes.
proof fn lemma_plain_scalar(c: char)
    requires
        c != '%',
        c != '+',
    ensures
        forall|i: int|
            0 <= i < encode_scalar(c as u32).len() ==> plain_byte(
                #[trigger] encode_scalar(c as u32)[i],
            ),
{
    let n = c as u32;
    assert(has_width_1_encoding(n) && n != 0x25 && n != 0x2b ==> leading_byte_width_1(n) != 0x25
        && leading_byte_width_1(n) != 0x2b) by (bit_vector);
    assert(has_width_2_encoding(n) ==> leading_byte_width_2(n) >= 0x80) by (bit_vector);
    assert(has_width_3_encoding(n) ==> leading_byte_width_3(n) >= 0x80) by (bit_vector);
    assert(leading_byte_width_4(n) >= 0x80) by (bit_vector);
    assert(last_continuation_byte(n) >= 0x80) by (bit_vector);
    assert(second_last_continuation_byte(n) >= 0x80) by (bit_vector);
    assert(third_last_continuation_byte(n) >= 0x80) by (bit_vector);
}

/// A text without `%` and `+` is written without these bytes.
proof fn lemma_plain_bytes(s: Seq<char>)
    requires
        plain(s),
    ensures
        forall|i: int|
            0 <= i < encode_utf8(s).len() ==> plain_byte(#[trigger] encode_utf8(s)[i]),
    decreases s.len(),
{
    if s.len() > 0 {
        assert(s[0] != '%');
        lemma_plain_scalar(s[0]);
        assert forall|i: int| 0 <= i < s.drop_first().len() implies (
        #[trigger] s.drop_first()[i]) != '%' && s.drop_first()[i] != '+' by {
            assert(s.drop_first()[i] == s[i + 1]);
        }
        lemma_plain_bytes(s.drop_first());
        let head = encode_scalar(s[0] as u32);
        let tail = encode_utf8(s.drop_first());
        assert(encode_utf8(s) == head + tail);
        assert forall|i: int| 0 <= i < encode_utf8(s).len() implies plain_byte(
            #[trigger] encode_utf8(s)[i],
        ) by {
            if i < head.len() {
                assert(encode_utf8(s)[i] == head[i]);
            } else {
                assert(encode_utf8(s)[i] == tail[i - head.len()]);
            }
        }
    }
}

/// `written` is how a client may write the bytes into a query string: each as it is, where it
/// is neither `%` nor `+`, or behind a `%` in two hexadecimal digits of either case; a space
/// also as `+`.
pub open spec fn encodes(written: Seq<u8>, bytes: Seq<u8>) -> bool
    decreases bytes.len(),
{
    if bytes.len() == 0 {
        written.len() == 0
    } else {
        let b = bytes[0];
        ||| {
            &&& written.len() >= 1
            &&& written[0] == b
            &&& plain_byte(b)
            &&& encodes(written.skip(1), bytes.skip(1))
        }
        ||| {
            &&& written.len() >= 3
            &&& written[0] == 0x25
            &&& hex_value(written[1]) == Some((b / 16) as u8)
            &&& hex_value(written[2]) == Some((b % 16) as u8)
            &&& encodes(written.skip(3), bytes.skip(1))
        }
        ||| {
            &&& written.len() >= 1
            &&& written[0] == 0x2b
            &&& b == 0x20
            &&& encodes(written.skip(1), bytes.skip(1))
        }
    }
}

/// Percent-decoding undoes percent-encoding, whichever bytes the client writes as they are and
/// in whichever case it writes the digits of the others.
pub proof fn percent_encoding_is_undone(written: Seq<u8>, bytes: Seq<u8>)
    requires
        encodes(written, bytes),
    ensures
        unescaped(written) == bytes,
    decreases bytes.len(),
{
    if bytes.len() > 0 {
        let b = bytes[0];
        let rest = bytes.skip(1);
        assert(seq![b] + rest =~= bytes);
        if written[0] == 0x25 {
            assert(escaped_byte(written[1], written[2]) == Some(b));
            percent_encoding_is_undone(written.skip(3), rest);
        } else {
            percent_encoding_is_undone(written.skip(1), rest);
        }
    }
}

/// An escape that is not one, a `%` without two hexadecimal digits behind it, stays: what is
/// decoded begins with its `%`.
pub proof fn an_invalid_escape_is_left_as_written(s: Seq<u8>)
    requires
        s.len() > 0,
        s[0] == 0x25,
        s.len() > 2 ==> hex_value(s[1]) is None || hex_value(s[2]) is None,
    ensures
        unescaped(s) == seq![0x25u8] + unescaped(s.skip(1)),
{
}

/// The value of the first pair with that key.
pub open spec fn value_of(pairs: Seq<Seq<char>>, key: Seq<char>) -> Option<Seq<char>>
    decreases pairs.len(),
{
    if pairs.len() == 0 {
        None
    } else {
        match cut_first(pairs.first(), '=') {
            Some((k, v)) => if k == key {
                Some(v)
            } else {
                value_of(pairs.drop_first(), key)
            },
            None => value_of(pairs.drop_first(), key),
        }
    }
}

/// The value that a query string gives a key.
pub open spec fn param_of(query: Option<Seq<char>>, key: Seq<char>) -> Option<Seq<char>> {
    match query {
        Some(q) => value_of(pieces(q, '&'), key),
        None => None,
    }
}

/// Pull one value out of a raw query string.
pub fn param(query: Option<&str>, key: &str) -> (r: Option<String>)
    ensures
        opt_view(r) == param_of(str_view(query), key@),
{
    let text: &str = match query {
        Some(q) => q,
        None => {
            return None;
        },
    };
    let pairs: Vec<String> = split_all(text, '&');
    let ghost all = views(pairs@);
    let mut i: usize = 0;
    proof {
        assert(all.skip(0) =~= all);
    }
    while i < pairs.len()
        invariant
            i <= pairs@.len(),
            all == views(pairs@),
            param_of(str_view(query), key@) == value_of(all, key@),
            value_of(all, key@) == value_of(all.skip(i as int), key@),
        decreases pairs.len() - i,
    {
        proof {
            assert(all.skip(i as int).first() == pairs@[i as int]@);
            assert(all.skip(i as int).drop_first() =~= all.skip(i + 1));
        }
        match split_first(pairs[i].as_str(), '=') {
            Some((k, v)) => {
                if same(k.as_str(), key) {
                    return Some(v);
                }
            },
            None => {},
        }
        i = i + 1;
    }
    None
}

/// A number of rows between one and five hundred, fifty where none is asked for.
pub open spec fn limit_of(query: Option<Seq<char>>) -> nat {
    match param_of(query, "limit"@) {
        Some(v) => match unsigned(v, u32::MAX as nat) {
            Some(n) => if n < 1 {
                1
            } else if n > 500 {
                500
            } else {
                n
            },
            None => 50,
        },
        None => 50,
    }
}

/// How many rows of history a query string asks for.
pub fn history_limit(query: Option<&str>) -> (r: u32)
    ensures
        r == limit_of(str_view(query)),
{
    match param(query, "limit") {
        Some(v) => match parse_unsigned(v.as_str(), u32::MAX) {
            Some(n) => if n < 1 {
                1
            } else if n > 500 {
                500
            } else {
                n
            },
            None => 50,
        },
        None => 50,
    }
}

/// The number of runs that the last pair that can be read gives; a malformed pair gives none.
pub open spec fn running_of(pairs: Seq<Seq<char>>) -> Option<u32>
    decreases pairs.len(),
{
    if pairs.len() == 0 {
        None
    } else {
        match cut_first(pairs.last(), '=') {
            Some((k, v)) => if k == "running"@ {
                match unsigned(v, u32::MAX as nat) {
                    Some(n) => Some(n as u32),
                    None => running_of(pairs.drop_last()),
                }
            } else {
                running_of(pairs.drop_last())
            },
            None => running_of(pairs.drop_last()),
        }
    }
}

/// A usage reading: the agent and, behind the LAST colon, the percentage, since the agent id
/// may itself hold one (`acp:gemini-cli`).
pub open spec fn reading_of(value: Seq<char>) -> Option<(Seq<char>, Seq<char>)> {
    match cut_last(value, ':') {
        Some((agent, percent)) => if agent.len() > 0 {
            Some((agent, percent))
        } else {
            None
        },
        None => None,
    }
}

/// Split a decoded usage reading into the agent and its percentage.
pub fn usage_reading(value: &str) -> (r: Option<(String, String)>)
    ensures
        cut_view(r) == reading_of(value@),
{
    match split_last(value, ':') {
        Some((agent, percent)) => {
            if agent.as_str().is_empty() {
                None
            } else {
                Some((agent, percent))
            }
        },
        None => None,
    }
}

/// What one pair says of an agent's usage.
pub open spec fn pair_reading(pair: Seq<char>) -> Option<(Seq<char>, Seq<char>)> {
    match cut_first(pair, '=') {
        Some((k, v)) => if k == "usage"@ {
            reading_of(decoded(v))
        } else {
            None
        },
        None => None,
    }
}

/// What the pairs say of the agents' usage, in order; a malformed pair says nothing.
pub open spec fn written_usage(pairs: Seq<Seq<char>>) -> Seq<(Seq<char>, Seq<char>)>
    decreases pairs.len(),
{
    if pairs.len() == 0 {
        Seq::empty()
    } else {
        match pair_reading(pairs.last()) {
            Some(reading) => written_usage(pairs.drop_last()).push(reading),
            None => written_usage(pairs.drop_last()),
        }
    }
}

/// The views of some usage readings.
pub open spec fn written_view(raw: Seq<(String, String)>) -> Seq<(Seq<char>, Seq<char>)> {
    Seq::new(raw.len(), |i: int| (raw[i].0@, raw[i].1@))
}

/// The readings that a query string gives, the percentages as they are written.
pub fn split_readings(query: &str) -> (r: (Option<u32>, Vec<(String, String)>))
    ensures
        r.0 == running_of(pieces(query@, '&')),
        written_view(r.1@) == written_usage(pieces(query@, '&')),
{
    let pairs: Vec<String> = split_all(query, '&');
    let ghost all = views(pairs@);
    let mut running: Option<u32> = None;
    let mut usage: Vec<(String, String)> = Vec::new();
    let mut i: usize = 0;
    proof {
        assert(written_view(usage@) =~= written_usage(all.take(0)));
    }
    while i < pairs.len()
        invariant
            i <= pairs@.len(),
            all == views(pairs@),
            running == running_of(all.take(i as int)),
            written_view(usage@) == written_usage(all.take(i as int)),
        decreases pairs.len() - i,
    {
        let ghost before = written_view(usage@);
        proof {
            assert(all.take(i + 1).last() == pairs@[i as int]@);
            assert(all.take(i + 1).drop_last() =~= all.take(i as int));
            reveal_strlit("running");
            reveal_strlit("usage");
            assert("running"@.len() != "usage"@.len());
        }
        match split_first(pairs[i].as_str(), '=') {
            Some((k, v)) => {
                if same(k.as_str(), "running") {
                    match parse_unsigned(v.as_str(), u32::MAX) {
                        Some(n) => {
                            running = Some(n);
                        },
                        None => {},
                    }
                } else if same(k.as_str(), "usage") {
                    let value: String = percent_decode(v.as_str());
                    match usage_reading(value.as_str()) {
                        Some(reading) => {
                            let ghost view = (reading.0@, reading.1@);
                            usage.push(reading);
                            proof {
                                assert(written_view(usage@) =~= before.push(view));
                            }
                        },
                        None => {},
                    }
                }
            },
            None => {},
        }
        i = i + 1;
    }
    proof {
        assert(all.take(all.len() as int) =~= all);
    }
    (running, usage)
}

/// The readings whose percentage is a number. One that is none is a reading we do not have.
pub open spec fn known_usage(
    written: Seq<(Seq<char>, Seq<char>)>,
    percents: Seq<Option<Percent>>,
) -> Seq<(Seq<char>, Percent)>
    decreases written.len(),
{
    if written.len() == 0 {
        Seq::empty()
    } else {
        let before = known_usage(written.drop_last(), percents);
        match percents[written.len() - 1] {
            Some(p) => before.push((written.last().0, p)),
            None => before,
        }
    }
}

/// `percents` are the numbers that `percent_of` reads in the percentages as they are written.
pub open spec fn percents_read<F: Fn(&str) -> Option<Percent>>(
    percent_of: F,
    written: Seq<(Seq<char>, Seq<char>)>,
    percents: Seq<Option<Percent>>,
) -> bool {
    &&& percents.len() == written.len()
    &&& forall|i: int|
        0 <= i < written.len() ==> percent_read(percent_of, written[i].1, #[trigger] percents[i])
}

/// `percent_of` may answer `percent` to that text.
pub open spec fn percent_read<F: Fn(&str) -> Option<Percent>>(
    percent_of: F,
    text: Seq<char>,
    percent: Option<Percent>,
) -> bool {
    exists|s: &str| s@ == text && #[trigger] call_ensures(percent_of, (s,), percent)
}

/// `usage` is what the query string says of the agents' usage where `percent_of` reads the
/// percentages.
pub open spec fn usage_read<F: Fn(&str) -> Option<Percent>>(
    percent_of: F,
    query: Seq<char>,
    usage: Seq<(Seq<char>, Percent)>,
) -> bool {
    exists|percents: Seq<Option<Percent>>|
        #[trigger] percents_read(percent_of, written_usage(pieces(query, '&')), percents) && usage
            == known_usage(written_usage(pieces(query, '&')), percents)
}

/// `r` is what the query string says of the node at the instant `now` where `percent_of` reads
/// the percentages. What the query string does not say is unknown.
pub open spec fn readings_read<F: Fn(&str) -> Option<Percent>>(
    percent_of: F,
    query: Option<Seq<char>>,
    now: i64,
    r: ReadingsView,
) -> bool {
    &&& r.now_ms == now
    &&& match query {
        Some(q) => r.running == running_of(pieces(q, '&')) && usage_read(percent_of, q, r.usage),
        None => r.running is None && r.usage.len() == 0,
    }
}

/// Parse the dispatcher's readings out of the query string.
///
/// `running=<n>` and any number of `usage=<agent_id>:<used_percent>`, the percentages read
/// by `percent_of`. A malformed pair is DROPPED rather than defaulted: a reading we cannot
/// parse is a reading we do not have, which holds the draft instead of releasing it on a
/// zero.
pub fn parse_readings<F: Fn(&str) -> Option<Percent>>(query: Option<&str>, percent_of: F) -> (r:
    Readings)
    requires
        forall|s: &str| call_requires(percent_of, (s,)),
    ensures
        exists|now: i64|
            on_clock(now) && #[trigger] readings_read(percent_of, str_view(query), now, r@),
{
    let now: i64 = now_ms();
    parse_readings_at(query, percent_of, now)
}

/// [`parse_readings`] at the instant `now`.
pub fn parse_readings_at<F: Fn(&str) -> Option<Percent>>(
    query: Option<&str>,
    percent_of: F,
    now: i64,
) -> (r: Readings)
    requires
        forall|s: &str| call_requires(percent_of, (s,)),
    ensures
        readings_read(percent_of, str_view(query), now, r@),
{
    let text: &str = match query {
        Some(q) => q,
        None => {
            return Readings { running: None, usage: Vec::new(), now_ms: now };
        },
    };
    let (running, written) = split_readings(text);
    let ghost raw = written_view(written@);
    let ghost mut percents: Seq<Option<Percent>> = Seq::empty();
    let mut usage: Vec<(String, Percent)> = Vec::new();
    let mut i: usize = 0;
    proof {
        assert(usage_view(usage@) =~= known_usage(raw.take(0), percents));
    }
    while i < written.len()
        invariant
            i <= written@.len(),
            raw == written_view(written@),
            percents.len() == i,
            forall|s: &str| call_requires(percent_of, (s,)),
            forall|j: int|
                0 <= j < i ==> percent_read(percent_of, raw[j].1, #[trigger] percents[j]),
            usage_view(usage@) == known_usage(raw.take(i as int), percents),
        decreases written.len() - i,
    {
        let percent: Option<Percent> = percent_of(written[i].1.as_str());
        let ghost before = usage_view(usage@);
        let ghost more = percents.push(percent);
        proof {
            lemma_known_usage_extends(raw.take(i as int), percents, percent);
            assert(raw.take(i + 1).drop_last() =~= raw.take(i as int));
            assert(raw.take(i + 1).last() == raw[i as int]);
            assert(more[i as int] == percent);
            assert forall|j: int| 0 <= j < i + 1 implies percent_read(
                percent_of,
                raw[j].1,
                #[trigger] more[j],
            ) by {
                if j < i {
                    assert(more[j] == percents[j]);
                } else {
                    assert(raw[j].1 == written@[i as int].1@);
                }
            }
        }
        match percent {
            Some(p) => {
                usage.push((written[i].0.clone(), p));
                proof {
                    assert(usage_view(usage@) =~= before.push((raw[i as int].0, p)));
                }
            },
            None => {},
        }
        proof {
            percents = more;
        }
        i = i + 1;
    }
    proof {
        assert(raw.take(raw.len() as int) =~= raw);
        assert(percents_read(percent_of, raw, percents));
    }
    Readings { running, usage, now_ms: now }
}

/// One more percentage changes nothing about the readings before it.
pub proof fn lemma_known_usage_extends(
    written: Seq<(Seq<char>, Seq<char>)>,
    percents: Seq<Option<Percent>>,
    percent: Option<Percent>,
)
    requires
        written.len() <= percents.len(),
    ensures
        known_usage(written, percents) == known_usage(written, percents.push(percent)),
    decreases written.len(),
{
    if written.len() > 0 {
        lemma_known_usage_extends(written.drop_last(), percents, percent);
    }
}

} // verus!
