//! Natural numbers written in decimal.

use vstd::arithmetic::power2::*;
use vstd::prelude::*;

use crate::text::chars_of;

verus! {

/// Whether `c` is one of `0` to `9`.
pub open spec fn is_digit(c: char) -> bool {
    '0' <= c <= '9'
}

/// The number that a digit stands for.
pub open spec fn digit_value(c: char) -> nat {
    (c as u32 - '0' as u32) as nat
}

/// The digit that stands for `n`, which is below ten.
pub open spec fn digit(n: nat) -> char {
    ('0' as u32 + n) as char
}

/// The number that a row of digits stands for.
pub open spec fn digits_value(s: Seq<char>) -> nat
    decreases s.len(),
{
    if s.len() == 0 {
        0
    } else {
        digits_value(s.drop_last()) * 10 + digit_value(s.last())
    }
}

/// What follows an optional `+`.
pub open spec fn after_plus(s: Seq<char>) -> Seq<char> {
    if s.len() > 0 && s.first() == '+' {
        s.drop_first()
    } else {
        s
    }
}

/// Nothing but digits.
pub open spec fn all_digits(s: Seq<char>) -> bool {
    forall|i: int| 0 <= i < s.len() ==> is_digit(#[trigger] s[i])
}

/// A number no larger than `max`: digits, at least one, and a `+` before them or not.
pub open spec fn unsigned(s: Seq<char>, max: nat) -> Option<nat> {
    let digits = after_plus(s);
    if digits.len() > 0 && all_digits(digits) && digits_value(digits) <= max {
        Some(digits_value(digits))
    } else {
        None
    }
}

/// `n` in decimal, without leading zeros.
pub open spec fn decimal(n: nat) -> Seq<char>
    decreases n,
{
    if n < 10 {
        seq![digit(n)]
    } else {
        decimal(n / 10).push(digit(n % 10))
    }
}

/// A longer row of digits never stands for less.
proof fn lemma_digits_value_grows(s: Seq<char>, i: int)
    requires
        0 <= i <= s.len(),
    ensures
        digits_value(s.take(i)) <= digits_value(s),
    decreases s.len(),
{
    if i == s.len() {
        assert(s.take(i) =~= s);
    } else {
        lemma_digits_value_grows(s.drop_last(), i);
        assert(s.drop_last().take(i) =~= s.take(i));
    }
}

/// Read a number no larger than `max`.
pub fn parse_unsigned(s: &str, max: u32) -> (r: Option<u32>)
    ensures
        match r {
            Some(n) => unsigned(s@, max as nat) == Some(n as nat),
            None => unsigned(s@, max as nat) is None,
        },
{
    let chars: Vec<char> = chars_of(s);
    let signed: bool = chars.len() > 0 && chars[0] == '+';
    let from: usize = if signed { 1 } else { 0 };
    let ghost digits = s@.skip(from as int);
    proof {
        assert(s@.skip(0) =~= s@);
        assert(s@.skip(1) =~= s@.drop_first());
    }
    if from == chars.len() {
        return None;
    }
    let mut total: u64 = 0;
    let mut i: usize = from;
    proof {
        assert(digits.take(0) =~= Seq::empty());
    }
    while i < chars.len()
        invariant
            from <= i <= chars@.len(),
            chars@ == s@,
            digits == s@.skip(from as int),
            digits == after_plus(s@),
            total == digits_value(digits.take(i - from)),
            total <= max,
            forall|j: int| 0 <= j < i - from ==> is_digit(#[trigger] digits[j]),
        decreases chars.len() - i,
    {
        let c: char = chars[i];
        proof {
            assert(digits[i - from] == c);
            assert(digits.take(i + 1 - from).drop_last() =~= digits.take(i - from));
        }
        if !('0' <= c && c <= '9') {
            proof {
                assert(!is_digit(digits[i - from]));
            }
            return None;
        }
        total = total * 10 + (c as u32 - '0' as u32) as u64;
        i = i + 1;
        if total > max as u64 {
            proof {
                lemma_digits_value_grows(digits, i - from);
            }
            return None;
        }
    }
    proof {
        assert(digits.take(digits.len() as int) =~= digits);
    }
    Some(total as u32)
}

/// The number that decimal digits, the lowest first, stand for.
spec fn low_first_value(ds: Seq<u8>) -> nat
    decreases ds.len(),
{
    if ds.len() == 0 {
        0
    } else {
        ds.first() as nat + 10 * low_first_value(ds.drop_first())
    }
}

/// Decimal digits, the lowest first, with no zero in the highest place but for zero itself.
spec fn low_first(ds: Seq<u8>) -> bool {
    &&& ds.len() > 0
    &&& forall|i: int| 0 <= i < ds.len() ==> #[trigger] ds[i] < 10
    &&& ds.len() > 1 ==> ds.last() > 0
}

/// A number is zero only where its highest digit is.
proof fn lemma_low_first_positive(ds: Seq<u8>)
    requires
        low_first(ds),
        ds.len() > 1 || ds[0] > 0,
    ensures
        low_first_value(ds) > 0,
    decreases ds.len(),
{
    if ds.len() > 1 {
        assert forall|i: int| 0 <= i < ds.len() - 1 implies #[trigger] ds.drop_first()[i] < 10 by {
            assert(ds[i + 1] < 10);
        }
        lemma_low_first_positive(ds.drop_first());
    }
}

/// Read from the highest digit down, the digits are the number in decimal.
proof fn lemma_low_first_is_decimal(ds: Seq<u8>)
    requires
        low_first(ds),
    ensures
        decimal(low_first_value(ds)) == Seq::new(
            ds.len(),
            |i: int| digit(ds[ds.len() - 1 - i] as nat),
        ),
    decreases ds.len(),
{
    let written = Seq::new(ds.len(), |i: int| digit(ds[ds.len() - 1 - i] as nat));
    let rest = ds.drop_first();
    assert(ds[0] < 10);
    if ds.len() == 1 {
        assert(low_first_value(rest) == 0);
        assert(written =~= seq![digit(ds[0] as nat)]);
    } else {
        assert forall|i: int| 0 <= i < rest.len() implies #[trigger] rest[i] < 10 by {
            assert(ds[i + 1] < 10);
        }
        assert(low_first(rest));
        assert(rest.len() == 1 ==> rest[0] > 0);
        lemma_low_first_positive(rest);
        lemma_low_first_is_decimal(rest);
        let n = low_first_value(ds);
        assert(n / 10 == low_first_value(rest));
        assert(n % 10 == ds[0]);
        assert(decimal(n / 10).push(digit(n % 10)) =~= written);
    }
}

/// One more digit on top of the others.
proof fn lemma_low_first_push(ds: Seq<u8>, d: u8)
    ensures
        low_first_value(ds.push(d)) == low_first_value(ds) + d * vstd::arithmetic::power::pow(
            10,
            ds.len(),
        ),
    decreases ds.len(),
{
    reveal(vstd::arithmetic::power::pow);
    if ds.len() == 0 {
        assert(ds.push(d).drop_first() =~= ds);
        assert(low_first_value(ds) == 0);
        assert(low_first_value(ds.push(d)) == d);
        let p = vstd::arithmetic::power::pow(10, ds.len());
        assert(d * p == d) by (nonlinear_arith)
            requires
                p == 1,
        ;
    } else {
        lemma_low_first_push(ds.drop_first(), d);
        assert(ds.push(d).drop_first() =~= ds.drop_first().push(d));
        assert(ds.push(d).first() == ds.first());
        let p = vstd::arithmetic::power::pow(10, (ds.len() - 1) as nat);
        let q = vstd::arithmetic::power::pow(10, ds.len());
        assert(10 * (d * p) == d * q) by (nonlinear_arith)
            requires
                q == 10 * p,
        ;
    }
}

/// The digits of `n`, the lowest first.
fn digits_of(n: u64) -> (ds: Vec<u8>)
    ensures
        low_first(ds@),
        low_first_value(ds@) == n,
{
    let mut ds: Vec<u8> = Vec::new();
    let mut rest: u64 = n;
    proof {
        reveal(vstd::arithmetic::power::pow);
        assert(vstd::arithmetic::power::pow(10, 0) == 1);
    }
    while rest >= 10
        invariant
            n == low_first_value(ds@) + rest * vstd::arithmetic::power::pow(10, ds@.len()),
            forall|i: int| 0 <= i < ds@.len() ==> #[trigger] ds@[i] < 10,
            ds@.len() > 0 ==> rest > 0,
        decreases rest,
    {
        let d: u8 = (rest % 10) as u8;
        proof {
            lemma_low_first_push(ds@, d);
            reveal(vstd::arithmetic::power::pow);
            let p = vstd::arithmetic::power::pow(10, ds@.len());
            let q = rest / 10;
            assert(vstd::arithmetic::power::pow(10, ds@.len() + 1) == 10 * p);
            assert(rest == 10 * q + d);
            assert(rest * p == d * p + q * (10 * p)) by (nonlinear_arith)
                requires
                    rest == 10 * q + d,
            ;
        }
        ds.push(d);
        rest = rest / 10;
    }
    proof {
        lemma_low_first_push(ds@, rest as u8);
    }
    ds.push(rest as u8);
    ds
}

/// Write the digits out, the highest first.
fn write_digits(ds: &Vec<u8>) -> (out: String)
    requires
        low_first(ds@),
    ensures
        out@ == decimal(low_first_value(ds@)),
{
    let mut out: String = String::new();
    let mut i: usize = ds.len();
    while i > 0
        invariant
            i <= ds@.len(),
            low_first(ds@),
            out@ == Seq::new((ds@.len() - i) as nat, |k: int| digit(ds@[ds@.len() - 1 - k] as nat)),
        decreases i,
    {
        i = i - 1;
        let d: u8 = ds[i];
        let ghost before = out@;
        out.push((48u8 + d) as char);
        proof {
            assert((48u8 + d) as char == digit(d as nat));
            assert(out@ =~= Seq::new(
                (ds@.len() - i) as nat,
                |k: int| digit(ds@[ds@.len() - 1 - k] as nat),
            ));
        }
    }
    proof {
        lemma_low_first_is_decimal(ds@);
        assert(out@ =~= decimal(low_first_value(ds@)));
    }
    out
}

/// `n` in decimal.
pub fn write_decimal(n: u64) -> (out: String)
    ensures
        out@ == decimal(n as nat),
{
    let ds: Vec<u8> = digits_of(n);
    write_digits(&ds)
}


/// Twice the number.
fn double(ds: &Vec<u8>) -> (out: Vec<u8>)
    requires
        low_first(ds@),
    ensures
        low_first(out@),
        low_first_value(out@) == 2 * low_first_value(ds@),
{
    let mut out: Vec<u8> = Vec::new();
    let mut carry: u8 = 0;
    let mut i: usize = 0;
    proof {
        assert(ds@.take(0) =~= Seq::empty());
        assert(low_first_value(ds@.take(0)) == 0);
    }
    while i < ds.len()
        invariant
            i <= ds@.len(),
            out@.len() == i,
            low_first(ds@),
            carry <= 1,
            low_first_value(out@) + carry * vstd::arithmetic::power::pow(10, i as nat) == 2
                * low_first_value(ds@.take(i as int)),
            forall|j: int| 0 <= j < out@.len() ==> #[trigger] out@[j] < 10,
            i == ds@.len() && i > 1 ==> carry > 0 || out@.last() > 0,
        decreases ds.len() - i,
    {
        let d: u8 = ds[i];
        let total: u8 = 2 * d + carry;
        let low: u8 = if total >= 10 { total - 10 } else { total };
        let next: u8 = if total >= 10 { 1 } else { 0 };
        proof {
            let p = vstd::arithmetic::power::pow(10, i as nat);
            let q = vstd::arithmetic::power::pow(10, (i + 1) as nat);
            reveal(vstd::arithmetic::power::pow);
            assert(q == 10 * p);
            lemma_low_first_push(out@, low);
            lemma_low_first_push(ds@.take(i as int), d);
            assert(ds@.take(i + 1) =~= ds@.take(i as int).push(d));
            assert(low * p + next * q == 2 * (d * p) + carry * p) by (nonlinear_arith)
                requires
                    q == 10 * p,
                    low + 10 * next == 2 * d + carry,
            ;
        }
        out.push(low);
        carry = next;
        i = i + 1;
    }
    proof {
        assert(ds@.take(ds@.len() as int) =~= ds@);
    }
    if carry > 0 {
        proof {
            lemma_low_first_push(out@, carry);
        }
        out.push(carry);
    } else {
        proof {
            let p = vstd::arithmetic::power::pow(10, i as nat);
            assert(carry * p == 0) by (nonlinear_arith)
                requires
                    carry == 0,
            ;
        }
    }
    out
}

/// `n * 2^twos` in decimal.
pub fn write_scaled(n: u64, twos: u32) -> (out: String)
    ensures
        out@ == decimal(n as nat * pow2(twos as nat)),
{
    let mut ds: Vec<u8> = digits_of(n);
    let mut i: u32 = 0;
    proof {
        lemma2_to64();
        assert(n as nat * pow2(0) == n);
    }
    while i < twos
        invariant
            i <= twos,
            low_first(ds@),
            low_first_value(ds@) == n as nat * pow2(i as nat),
        decreases twos - i,
    {
        ds = double(&ds);
        proof {
            lemma_pow2_unfold((i + 1) as nat);
            let p = pow2(i as nat);
            let q = pow2((i + 1) as nat);
            assert(2 * (n as nat * p) == n as nat * q) by (nonlinear_arith)
                requires
                    q == 2 * p,
            ;
        }
        i = i + 1;
    }
    write_digits(&ds)
}

} // verus!
