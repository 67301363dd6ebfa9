//! What each condition is about, and how percentages compare and read.

use vstd::arithmetic::power2::*;
use vstd::prelude::*;

use crate::models::{usage_of, ReadingsView, TriggerView};
use crate::number::decimal;
use crate::percent::{rounded, Percent};

verus! {

/// A wait for runs is about the run count alone: it is over exactly where the count is known
/// and smaller than the ceiling.
pub proof fn concurrency_is_about_the_run_count(
    below: u32,
    r: ReadingsView,
    other: ReadingsView,
    latch: bool,
    other_latch: bool,
)
    ensures
        r.running is None ==> !(TriggerView::Concurrency { below }).satisfied(r, latch),
        r.running is Some ==> ((TriggerView::Concurrency { below }).satisfied(r, latch)
            <==> r.running->0 < below),
        r.running == other.running ==> (TriggerView::Concurrency { below }).satisfied(r, latch)
            == (TriggerView::Concurrency { below }).satisfied(other, other_latch),
{
}

/// A wait for everything to finish is about the latch and the run count alone: it is over
/// exactly where work was seen and the count is known to be zero.
pub proof fn all_done_is_about_the_latch_and_the_run_count(
    r: ReadingsView,
    other: ReadingsView,
    latch: bool,
)
    ensures
        TriggerView::AllDone.satisfied(r, latch) <==> latch && r.running is Some && r.running->0
            == 0,
        r.running == other.running ==> TriggerView::AllDone.satisfied(r, latch)
            == TriggerView::AllDone.satisfied(other, latch),
{
}

/// A wait for a time is about the time alone: it is over from that instant on.
pub proof fn a_set_time_is_about_the_time(
    epoch_ms: i64,
    r: ReadingsView,
    other: ReadingsView,
    latch: bool,
    other_latch: bool,
)
    ensures
        (TriggerView::At { epoch_ms }).satisfied(r, latch) <==> epoch_ms <= r.now_ms,
        r.now_ms == other.now_ms ==> (TriggerView::At { epoch_ms }).satisfied(r, latch) == (
        TriggerView::At { epoch_ms }).satisfied(other, other_latch),
{
}

/// The first reading of the agent stands at `i`.
pub open spec fn first_reading(r: ReadingsView, agent_id: Seq<char>, i: int) -> bool {
    &&& 0 <= i < r.usage.len()
    &&& r.usage[i].0 == agent_id
    &&& forall|j: int| 0 <= j < i ==> (#[trigger] r.usage[j]).0 != agent_id
}

/// A wait for usage is about that agent's usage alone: it is over exactly where the first
/// reading of the agent is below the percentage, whatever runs and whatever the time is.
pub proof fn usage_is_about_that_agents_usage(
    agent_id: Seq<char>,
    below_percent: Percent,
    r: ReadingsView,
    other: ReadingsView,
    latch: bool,
    other_latch: bool,
)
    ensures
        (TriggerView::UsageReset { agent_id, below_percent }).satisfied(r, latch) <==> (exists|
            i: int,
        |
            #[trigger] first_reading(r, agent_id, i) && r.usage[i].1.is_below(below_percent)),
        r.usage == other.usage ==> (TriggerView::UsageReset { agent_id, below_percent }).satisfied(
            r,
            latch,
        ) == (TriggerView::UsageReset { agent_id, below_percent }).satisfied(other, other_latch),
{
    lemma_first_reading(r, agent_id);
    let t = TriggerView::UsageReset { agent_id, below_percent };
    if exists|i: int|
        #[trigger] first_reading(r, agent_id, i) && r.usage[i].1.is_below(below_percent) {
        let i = choose|i: int|
            #[trigger] first_reading(r, agent_id, i) && r.usage[i].1.is_below(below_percent);
        assert(usage_of(r.usage, agent_id) == Some(r.usage[i].1));
    }
    if t.satisfied(r, latch) {
        let i = choose|i: int| first_reading(r, agent_id, i);
        assert(first_reading(r, agent_id, i));
    }
}

/// The usage that is looked up is the first reading of the agent.
proof fn lemma_first_reading(r: ReadingsView, agent_id: Seq<char>)
    ensures
        forall|i: int| #[trigger]
            first_reading(r, agent_id, i) ==> usage_of(r.usage, agent_id) == Some(r.usage[i].1),
        usage_of(r.usage, agent_id) is Some ==> exists|i: int| first_reading(r, agent_id, i),
    decreases r.usage.len(),
{
    if r.usage.len() > 0 {
        let rest = ReadingsView { usage: r.usage.drop_first(), ..r };
        lemma_first_reading(rest, agent_id);
        assert forall|i: int| #[trigger] first_reading(r, agent_id, i) implies usage_of(
            r.usage,
            agent_id,
        ) == Some(r.usage[i].1) by {
            if i > 0 {
                assert(r.usage[0].0 != agent_id);
                assert forall|j: int| 0 <= j < i - 1 implies (#[trigger] rest.usage[j]).0
                    != agent_id by {
                    assert(rest.usage[j] == r.usage[j + 1]);
                }
                assert(first_reading(rest, agent_id, i - 1));
            }
        }
        if usage_of(r.usage, agent_id) is Some {
            if r.usage[0].0 == agent_id {
                assert(first_reading(r, agent_id, 0));
            } else {
                let i = choose|i: int| first_reading(rest, agent_id, i);
                assert forall|j: int| 0 <= j < i + 1 implies (#[trigger] r.usage[j]).0
                    != agent_id by {
                    if j > 0 {
                        assert(rest.usage[j - 1] == r.usage[j]);
                    }
                }
                assert(rest.usage[i] == r.usage[i + 1]);
                assert(first_reading(r, agent_id, i + 1));
            }
        }
    }
}

/// The size of a number by its bits without the sign, in units of the smallest one there is. The
/// bits are an exponent and, below it, fifty-two bits of a fraction.
pub open spec fn size_of(bits: int) -> int {
    let exponent = bits / 0x10_0000_0000_0000;
    let fraction = bits % 0x10_0000_0000_0000;
    if exponent == 0 {
        fraction
    } else {
        (fraction + 0x10_0000_0000_0000) * pow2((exponent - 1) as nat)
    }
}

/// The number in units of the smallest one there is.
pub open spec fn amount(p: Percent) -> int {
    if p.bits >= 0x8000_0000_0000_0000 {
        -size_of(p.bits - 0x8000_0000_0000_0000)
    } else {
        size_of(p.bits as int)
    }
}

/// The bits stand for no number: the exponent is the largest and the fraction is not zero.
pub open spec fn no_number(p: Percent) -> bool {
    let bits = p.bits as int % 0x8000_0000_0000_0000;
    bits / 0x10_0000_0000_0000 == 0x7ff && bits % 0x10_0000_0000_0000 != 0
}

/// Larger bits stand for a larger size.
proof fn lemma_size_grows(a: int, b: int)
    requires
        0 <= a < b,
    ensures
        0 <= size_of(a) < size_of(b),
{
    let h: int = 0x10_0000_0000_0000;
    let (ea, fa, eb, fb) = (a / h, a % h, b / h, b % h);
    if ea > 0 {
        lemma_pow2_pos((ea - 1) as nat);
        let u = pow2((ea - 1) as nat) as int;
        assert(0 <= (fa + h) * u < (2 * h) * u) by (nonlinear_arith)
            requires
                0 <= fa < h,
                h > 0,
                u > 0,
        ;
        if ea == eb {
            assert((fa + h) * u < (fb + h) * u) by (nonlinear_arith)
                requires
                    fa < fb,
                    u > 0,
            ;
        } else {
            let v = pow2((eb - 1) as nat) as int;
            lemma_pow2_pos((eb - 1) as nat);
            lemma_pow2_unfold(ea as nat);
            if ea < eb - 1 {
                lemma_pow2_strictly_increases(ea as nat, (eb - 1) as nat);
            }
            assert((2 * h) * u <= (fb + h) * v) by (nonlinear_arith)
                requires
                    2 * u <= v,
                    fb >= 0,
                    h > 0,
                    u > 0,
            ;
        }
    } else if eb > 0 {
        let v = pow2((eb - 1) as nat) as int;
        lemma_pow2_pos((eb - 1) as nat);
        assert(h <= (fb + h) * v) by (nonlinear_arith)
            requires
                v >= 1,
                fb >= 0,
                h > 0,
        ;
    }
}

/// Percentages compare as the numbers they stand for, and what is no number is neither below
/// nor above anything.
pub proof fn percentages_compare_as_numbers(a: Percent, b: Percent)
    ensures
        a.is_below(b) <==> !no_number(a) && !no_number(b) && amount(a) < amount(b),
        a.is_equal(b) <==> !no_number(a) && !no_number(b) && amount(a) == amount(b),
        a.is_finite() <==> (a.bits as int % 0x8000_0000_0000_0000) / 0x10_0000_0000_0000 != 0x7ff,
{
    let x = a.magnitude() as int;
    let y = b.magnitude() as int;
    assert(a.bits as int % 0x8000_0000_0000_0000 == x);
    assert(b.bits as int % 0x8000_0000_0000_0000 == y);
    assert(size_of(0) == 0);
    if x < y {
        lemma_size_grows(x, y);
    }
    if y < x {
        lemma_size_grows(y, x);
    }
    if x > 0 {
        lemma_size_grows(0, x);
    }
    if y > 0 {
        lemma_size_grows(0, y);
    }
}

/// Rounding goes to the nearest whole number, and from the middle to the even one.
pub proof fn rounding_goes_to_the_nearest(m: nat, twos: nat)
    ensures
        ({
            let unit = pow2(twos) as int;
            let n = rounded(m, -(twos as int)) as int;
            &&& -unit <= 2 * (n * unit - m) <= unit
            &&& (2 * (n * unit - m) == unit || 2 * (n * unit - m) == -unit) && unit > 1 ==> n % 2
                == 0
        }),
        rounded(m, twos as int) == m * pow2(twos),
{
    let unit = pow2(twos) as int;
    lemma_pow2_pos(twos);
    if twos == 0 {
        lemma2_to64();
        assert(m as int * 1 == m as int) by (nonlinear_arith);
    } else {
        let whole = m as int / unit;
        let rest = m as int % unit;
        vstd::arithmetic::div_mod::lemma_fundamental_div_mod(m as int, unit);
        assert(unit * whole == whole * unit) by (nonlinear_arith);
        assert((whole + 1) * unit == whole * unit + unit) by (nonlinear_arith);
        vstd::arithmetic::div_mod::lemma_mod_bound(m as int, unit);
    }
}

/// A finite percentage is written as the whole number nearest to it, with a minus where its sign
/// is one.
pub proof fn a_percentage_is_written_to_the_nearest(p: Percent) -> (n: nat)
    requires
        p.is_finite(),
    ensures
        p.bits < 0x8000_0000_0000_0000 ==> p.label() == decimal(n),
        p.bits >= 0x8000_0000_0000_0000 ==> p.label() == "-"@ + decimal(n),
        ({
            let one = pow2(1074) as int;
            let size = size_of(p.magnitude() as int);
            -one <= 2 * (n * one - size) <= one
        }),
{
    let n = rounded(p.mantissa(), p.exponent());
    let bits = p.magnitude() as int;
    let h: int = 0x10_0000_0000_0000;
    let one = pow2(1074) as int;
    let size = size_of(bits);
    let m = p.mantissa() as int;
    let e = p.exponent();
    lemma_pow2_pos(1074);
    let up = (e + 1074) as nat;
    let scale = pow2(up) as int;
    lemma_pow2_pos(up);
    assert(size == m * scale) by {
        if bits < h {
            lemma2_to64();
            assert(m * 1 == m) by (nonlinear_arith);
        }
    }
    if e >= 0 {
        lemma_pow2_adds(e as nat, 1074);
        rounding_goes_to_the_nearest(p.mantissa(), e as nat);
        let t = pow2(e as nat) as int;
        assert(scale == t * one);
        assert(n as int * one == m * scale) by (nonlinear_arith)
            requires
                n as int == m * t,
                scale == t * one,
        ;
    } else {
        let unit = pow2((-e) as nat) as int;
        rounding_goes_to_the_nearest(p.mantissa(), (-e) as nat);
        lemma_pow2_adds((-e) as nat, up);
        assert(one == unit * scale);
        let k = 2 * (n as int * unit - m);
        assert(2 * (n as int * one - size) == k * scale) by (nonlinear_arith)
            requires
                one == unit * scale,
                size == m * scale,
                k == 2 * (n as int * unit - m),
        ;
        assert(-(unit * scale) <= k * scale <= unit * scale) by (nonlinear_arith)
            requires
                -unit <= k <= unit,
                scale > 0,
        ;
    }
    n
}

} // verus!
