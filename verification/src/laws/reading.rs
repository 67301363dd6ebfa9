//! What holds of reading a query string: what it does not say, or does not say so that it can
//! be understood, is unknown.

use vstd::prelude::*;

use crate::laws::waiting::unread_usage_is_unknown;
use crate::laws::wording::{a_number_is_read_back, a_text_is_cut_at_the_first, lacks, pieces_add_up};
use crate::models::usage_of;
use crate::number::{decimal, digit, unsigned};
use crate::percent::Percent;
use crate::query::{
    decoded, hex_value, known_usage, lemma_known_usage_extends, limit_of, pair_reading, param_of,
    reading_of, running_of, value_of, written_usage,
};
use crate::text::{cut_first, lemma_cut_last_at, pieces};

verus! {

/// The pair has that key.
pub open spec fn has_key(pair: Seq<char>, key: Seq<char>) -> bool {
    cut_first(pair, '=') matches Some((k, _)) && k == key
}

/// A run count that no pair gives is unknown.
pub proof fn an_omitted_run_count_is_unknown(pairs: Seq<Seq<char>>)
    requires
        forall|i: int| 0 <= i < pairs.len() ==> !has_key(#[trigger] pairs[i], "running"@),
    ensures
        running_of(pairs) is None,
    decreases pairs.len(),
{
    if pairs.len() > 0 {
        assert(!has_key(pairs[pairs.len() - 1], "running"@));
        assert forall|i: int| 0 <= i < pairs.drop_last().len() implies !has_key(
            #[trigger] pairs.drop_last()[i],
            "running"@,
        ) by {
            assert(pairs.drop_last()[i] == pairs[i]);
        }
        an_omitted_run_count_is_unknown(pairs.drop_last());
    }
}

/// A pair whose run count cannot be read is dropped, and what the others say stands: it is
/// never taken for zero.
pub proof fn a_malformed_run_count_is_dropped(
    pairs: Seq<Seq<char>>,
    pair: Seq<char>,
    value: Seq<char>,
)
    requires
        cut_first(pair, '=') == Some(("running"@, value)),
        unsigned(value, u32::MAX as nat) is None,
    ensures
        running_of(pairs.push(pair)) == running_of(pairs),
{
    assert(pairs.push(pair).drop_last() =~= pairs);
}

/// Of several run counts that can be read, the last counts.
pub proof fn the_last_run_count_counts(pairs: Seq<Seq<char>>, pair: Seq<char>, value: Seq<char>)
    requires
        cut_first(pair, '=') == Some(("running"@, value)),
        unsigned(value, u32::MAX as nat) is Some,
    ensures
        running_of(pairs.push(pair)) == Some(unsigned(value, u32::MAX as nat)->0 as u32),
{
}

/// A usage pair that cannot be read is dropped, and the others stand as before.
pub proof fn a_malformed_usage_pair_is_dropped(pairs: Seq<Seq<char>>, pair: Seq<char>)
    requires
        pair_reading(pair) is None,
    ensures
        written_usage(pairs.push(pair)) == written_usage(pairs),
{
    assert(pairs.push(pair).drop_last() =~= pairs);
}

/// An agent id may hold colons of its own: the percentage stands behind the last.
pub proof fn a_colon_in_an_agent_id_stays(agent: Seq<char>, percent: Seq<char>)
    requires
        agent.len() > 0,
        forall|i: int| 0 <= i < percent.len() ==> (#[trigger] percent[i]) != ':',
    ensures
        reading_of(agent.push(':') + percent) == Some((agent, percent)),
{
    let s = agent.push(':') + percent;
    let at = agent.len() as int;
    assert forall|j: int| at < j < s.len() implies s[j] != ':' by {
        assert(s[j] == percent[j - at - 1]);
    }
    lemma_cut_last_at(s, ':', at);
    assert(s.take(at) =~= agent);
    assert(s.skip(at + 1) =~= percent);
}

/// The usage of an agent that the readings do not name is unknown, whatever their percentages.
pub proof fn an_omitted_agent_is_unknown(
    written: Seq<(Seq<char>, Seq<char>)>,
    percents: Seq<Option<Percent>>,
    agent_id: Seq<char>,
)
    requires
        forall|i: int| 0 <= i < written.len() ==> (#[trigger] written[i]).0 != agent_id,
    ensures
        usage_of(known_usage(written, percents), agent_id) is None,
{
    lemma_known_agents(written, percents, agent_id);
    unread_usage_is_unknown(known_usage(written, percents), agent_id);
}

/// Every agent whose usage is known was named.
proof fn lemma_known_agents(
    written: Seq<(Seq<char>, Seq<char>)>,
    percents: Seq<Option<Percent>>,
    agent_id: Seq<char>,
)
    requires
        forall|i: int| 0 <= i < written.len() ==> (#[trigger] written[i]).0 != agent_id,
    ensures
        forall|i: int|
            0 <= i < known_usage(written, percents).len() ==> (#[trigger] known_usage(
                written,
                percents,
            )[i]).0 != agent_id,
    decreases written.len(),
{
    if written.len() > 0 {
        assert(written[written.len() - 1].0 != agent_id);
        assert forall|i: int| 0 <= i < written.drop_last().len() implies (
        #[trigger] written.drop_last()[i]).0 != agent_id by {
            assert(written.drop_last()[i] == written[i]);
        }
        lemma_known_agents(written.drop_last(), percents, agent_id);
        let before = known_usage(written.drop_last(), percents);
        let known = known_usage(written, percents);
        assert forall|i: int| 0 <= i < known.len() implies (#[trigger] known[i]).0 != agent_id by {
            if i < before.len() {
                assert(known[i] == before[i]);
            }
        }
    }
}

/// The pairs of two query strings with an ampersand between them are read one after the other:
/// of a parameter the first value counts, of the run count the last that can be read, and all
/// usage readings do, in order.
pub proof fn a_query_is_read_pair_by_pair(a: Seq<char>, b: Seq<char>, key: Seq<char>)
    ensures
        ({
            let both = a.push('&') + b;
            let (pa, pb) = (pieces(a, '&'), pieces(b, '&'));
            &&& param_of(Some(both), key) == (if param_of(Some(a), key) is Some {
                param_of(Some(a), key)
            } else {
                param_of(Some(b), key)
            })
            &&& running_of(pieces(both, '&')) == (if running_of(pb) is Some {
                running_of(pb)
            } else {
                running_of(pa)
            })
            &&& written_usage(pieces(both, '&')) == written_usage(pa) + written_usage(pb)
        }),
        param_of(None, key) is None,
{
    pieces_add_up(a, '&', b);
    lemma_value_of_both(pieces(a, '&'), pieces(b, '&'), key);
    lemma_running_of_both(pieces(a, '&'), pieces(b, '&'));
    lemma_written_both(pieces(a, '&'), pieces(b, '&'));
}

/// The value in two rows of pairs.
proof fn lemma_value_of_both(a: Seq<Seq<char>>, b: Seq<Seq<char>>, key: Seq<char>)
    ensures
        value_of(a + b, key) == (if value_of(a, key) is Some {
            value_of(a, key)
        } else {
            value_of(b, key)
        }),
    decreases a.len(),
{
    if a.len() == 0 {
        assert(a + b =~= b);
    } else {
        lemma_value_of_both(a.drop_first(), b, key);
        assert((a + b).drop_first() =~= a.drop_first() + b);
        assert((a + b).first() == a.first());
    }
}

/// The run count in two rows of pairs.
proof fn lemma_running_of_both(a: Seq<Seq<char>>, b: Seq<Seq<char>>)
    ensures
        running_of(a + b) == (if running_of(b) is Some {
            running_of(b)
        } else {
            running_of(a)
        }),
    decreases b.len(),
{
    if b.len() == 0 {
        assert(a + b =~= a);
    } else {
        lemma_running_of_both(a, b.drop_last());
        assert((a + b).drop_last() =~= a + b.drop_last());
        assert((a + b).last() == b.last());
    }
}

/// The usage in two rows of pairs.
proof fn lemma_written_both(a: Seq<Seq<char>>, b: Seq<Seq<char>>)
    ensures
        written_usage(a + b) == written_usage(a) + written_usage(b),
    decreases b.len(),
{
    if b.len() == 0 {
        assert(a + b =~= a);
        assert(written_usage(a) + written_usage(b) =~= written_usage(a));
    } else {
        lemma_written_both(a, b.drop_last());
        assert((a + b).drop_last() =~= a + b.drop_last());
        assert((a + b).last() == b.last());
        assert(written_usage(a + b) =~= written_usage(a) + written_usage(b));
    }
}

/// A pair of a key and a value, written with an equals sign between them, gives the key that
/// value and no other key any.
pub proof fn a_pair_gives_its_key_its_value(key: Seq<char>, value: Seq<char>, other: Seq<char>)
    requires
        lacks(key, '='),
        lacks(key, '&'),
        lacks(value, '&'),
        other != key,
    ensures
        param_of(Some(key.push('=') + value), key) == Some(value),
        param_of(Some(key.push('=') + value), other) is None,
{
    let pair = key.push('=') + value;
    lemma_one_pair(key, value);
    a_text_is_cut_at_the_first(key, '=', value);
    let pairs = seq![pair];
    assert(pairs.first() == pair);
    assert(pairs.drop_first() =~= Seq::empty());
    assert(value_of(Seq::empty(), other) is None);
}

/// A pair is one piece of a query string.
proof fn lemma_one_pair(key: Seq<char>, value: Seq<char>)
    requires
        lacks(key, '&'),
        lacks(value, '&'),
    ensures
        pieces(key.push('=') + value, '&') == seq![key.push('=') + value],
{
    let pair = key.push('=') + value;
    assert forall|i: int| 0 <= i < pair.len() implies (#[trigger] pair[i]) != '&' by {
        if i < key.len() {
            assert(pair[i] == key[i]);
        } else if i > key.len() {
            assert(pair[i] == value[i - key.len() - 1]);
        }
    }
    pieces_add_up(pair, '&', Seq::empty());
}

/// A run count that is written down in a query string is read back, and tells nothing of usage.
pub proof fn a_run_count_is_read_back(n: nat)
    ensures
        ({
            let pairs = pieces("running"@.push('=') + decimal(n), '&');
            &&& n <= u32::MAX ==> running_of(pairs) == Some(n as u32)
            &&& n > u32::MAX ==> running_of(pairs) is None
            &&& written_usage(pairs).len() == 0
        }),
{
    let key = "running"@;
    reveal_strlit("running");
    reveal_strlit("usage");
    assert(key.len() != "usage"@.len());
    lemma_digits_lack(n);
    assert(lacks(key, '=') && lacks(key, '&'));
    lemma_one_pair(key, decimal(n));
    a_text_is_cut_at_the_first(key, '=', decimal(n));
    a_number_is_read_back(n, u32::MAX as nat);
    let pair = key.push('=') + decimal(n);
    let pairs = seq![pair];
    assert(pairs.last() == pair);
    assert(pairs.drop_last() =~= Seq::empty());
    assert(running_of(Seq::empty()) is None);
    assert(written_usage(Seq::empty()) =~= Seq::empty());
}

/// A number in decimal holds no ampersand.
proof fn lemma_digits_lack(n: nat)
    ensures
        lacks(decimal(n), '&'),
    decreases n,
{
    if n >= 10 {
        lemma_digits_lack(n / 10);
        let s = decimal(n);
        let front = decimal(n / 10);
        assert(digit(n % 10) as u32 == 48 + n % 10);
        assert forall|i: int| 0 <= i < s.len() implies (#[trigger] s[i]) != '&' by {
            if i < front.len() {
                assert(s[i] == front[i]);
            }
        }
    } else {
        assert(digit(n) as u32 == 48 + n);
    }
}

/// A usage pair is decoded, and then cut at its last colon into the agent and its percentage; it
/// tells nothing of runs.
pub proof fn a_usage_pair_is_decoded_and_cut(value: Seq<char>, agent: Seq<char>, percent: Seq<char>)
    requires
        lacks(value, '&'),
        decoded(value) == agent.push(':') + percent,
        agent.len() > 0,
        lacks(percent, ':'),
    ensures
        written_usage(pieces("usage"@.push('=') + value, '&')) == seq![(agent, percent)],
        running_of(pieces("usage"@.push('=') + value, '&')) is None,
{
    let key = "usage"@;
    reveal_strlit("running");
    reveal_strlit("usage");
    assert(key.len() != "running"@.len());
    assert(lacks(key, '=') && lacks(key, '&'));
    lemma_one_pair(key, value);
    a_text_is_cut_at_the_first(key, '=', value);
    a_colon_in_an_agent_id_stays(agent, percent);
    let pair = key.push('=') + value;
    let pairs = seq![pair];
    assert(pairs.last() == pair);
    assert(pairs.drop_last() =~= Seq::empty());
    assert(running_of(Seq::empty()) is None);
    assert(written_usage(Seq::empty()) =~= Seq::empty());
    assert(written_usage(pairs) =~= seq![(agent, percent)]);
}

/// Of the usage readings those count whose percentage is a number, in their order.
pub proof fn readings_with_a_number_count(
    written: Seq<(Seq<char>, Seq<char>)>,
    percents: Seq<Option<Percent>>,
    agent: Seq<char>,
    text: Seq<char>,
    percent: Option<Percent>,
)
    requires
        written.len() == percents.len(),
    ensures
        ({
            let more = known_usage(written.push((agent, text)), percents.push(percent));
            let before = known_usage(written, percents);
            &&& percent matches Some(p) ==> more == before.push((agent, p))
            &&& percent is None ==> more == before
        }),
        known_usage(Seq::empty(), percents).len() == 0,
{
    let all = written.push((agent, text));
    assert(all.drop_last() =~= written);
    assert(all.last() == (agent, text));
    lemma_known_usage_extends(written, percents, percent);
}

/// A history limit that is asked for is the one that counts, between one and five hundred; where
/// none is, or none that is a number, it is fifty.
pub proof fn a_history_limit_is_the_one_asked_for(n: nat, query: Option<Seq<char>>)
    requires
        n <= u32::MAX,
    ensures
        ({
            let asked = limit_of(Some("limit"@.push('=') + decimal(n)));
            &&& 1 <= n <= 500 ==> asked == n
            &&& n == 0 ==> asked == 1
            &&& n > 500 ==> asked == 500
        }),
        param_of(query, "limit"@) is None ==> limit_of(query) == 50,
        param_of(query, "limit"@) matches Some(v) && unsigned(v, u32::MAX as nat) is None
            ==> limit_of(query) == 50,
{
    reveal_strlit("limit");
    lemma_digits_lack(n);
    assert(lacks("limit"@, '=') && lacks("limit"@, '&'));
    a_number_is_read_back(n, u32::MAX as nat);
    a_pair_gives_its_key_its_value("limit"@, decimal(n), Seq::empty());
}

/// A hexadecimal digit stands for its number, a letter in either case for ten and up.
pub proof fn hexadecimal_digits_stand_for_their_numbers(n: u8)
    ensures
        n < 10 ==> hex_value((48 + n) as u8) == Some(n),
        10 <= n < 16 ==> hex_value((55 + n) as u8) == Some(n) && hex_value((87 + n) as u8) == Some(
            n,
        ),
        n < 48 || 58 <= n < 65 || 71 <= n < 97 || 103 <= n ==> hex_value(n) is None,
{
}

} // verus!
