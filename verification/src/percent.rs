//! Percentages as they come over the wire: double precision numbers, held by their bits.

use vstd::arithmetic::power2::*;
use vstd::prelude::*;

use crate::number::{decimal, write_decimal, write_scaled};

verus! {

/// A double precision number, by its IEEE 754 binary64 bits.
#[derive(Debug, Clone, Copy)]
pub struct Percent {
    pub bits: u64,
}

/// The bit that holds the sign.
pub const SIGN: u64 = 0x8000_0000_0000_0000;

/// The bits of infinity; larger ones, the sign aside, are no number at all.
pub const INFINITY: u64 = 0x7ff0_0000_0000_0000;

/// One above the largest fraction.
pub const HIDDEN: u64 = 0x10_0000_0000_0000;

/// `m * 2^e`, rounded to a whole number, a half to the even neighbour.
pub open spec fn rounded(m: nat, e: int) -> nat {
    if e >= 0 {
        m * pow2(e as nat)
    } else {
        let unit = pow2((-e) as nat);
        let whole = m / unit;
        let rest = m % unit;
        if 2 * rest > unit || (2 * rest == unit && whole % 2 == 1) {
            whole + 1
        } else {
            whole
        }
    }
}

impl Percent {
    /// Whether the sign is a minus.
    pub open spec fn is_negative(self) -> bool {
        self.bits >= SIGN
    }

    /// The bits without the sign. They order the numbers of one sign by size.
    pub open spec fn magnitude(self) -> nat {
        if self.is_negative() {
            (self.bits - SIGN) as nat
        } else {
            self.bits as nat
        }
    }

    /// Not a number.
    pub open spec fn is_nan(self) -> bool {
        self.magnitude() > INFINITY
    }

    /// A number that is not infinite.
    pub open spec fn is_finite(self) -> bool {
        self.magnitude() < INFINITY
    }

    /// A whole number in the place of the value: of two values that are numbers, the smaller
    /// one has the smaller rank, and only equal values have the same.
    pub open spec fn rank(self) -> int {
        if self.is_negative() {
            -(self.magnitude() as int)
        } else {
            self.magnitude() as int
        }
    }

    /// `self < other`, which nothing that is no number meets.
    pub open spec fn is_below(self, other: Percent) -> bool {
        !self.is_nan() && !other.is_nan() && self.rank() < other.rank()
    }

    /// `self == other`, which nothing that is no number meets.
    pub open spec fn is_equal(self, other: Percent) -> bool {
        !self.is_nan() && !other.is_nan() && self.rank() == other.rank()
    }

    /// The whole number of units that the value counts, the sign aside.
    pub open spec fn mantissa(self) -> nat {
        let fraction = self.magnitude() % HIDDEN as nat;
        if self.magnitude() < HIDDEN {
            fraction
        } else {
            fraction + HIDDEN as nat
        }
    }

    /// The unit, as a power of two.
    pub open spec fn exponent(self) -> int {
        if self.magnitude() < HIDDEN {
            -1074
        } else {
            self.magnitude() as int / HIDDEN as int - 1075
        }
    }

    /// The value written as a whole number.
    pub open spec fn label(self) -> Seq<char> {
        if self.is_nan() {
            "NaN"@
        } else {
            let size = if self.magnitude() == INFINITY {
                "inf"@
            } else {
                decimal(rounded(self.mantissa(), self.exponent()))
            };
            if self.is_negative() {
                "-"@ + size
            } else {
                size
            }
        }
    }

    /// The bits without the sign.
    fn size_bits(&self) -> (r: u64)
        ensures
            r == self.magnitude(),
    {
        if self.bits >= SIGN {
            self.bits - SIGN
        } else {
            self.bits
        }
    }

    /// Whether the value is a number and not infinite.
    pub fn finite(&self) -> (r: bool)
        ensures
            r == self.is_finite(),
    {
        self.size_bits() < INFINITY
    }

    /// Whether the value is a number and smaller than `other`.
    pub fn below(&self, other: &Percent) -> (r: bool)
        ensures
            r == self.is_below(*other),
    {
        let a: u64 = self.size_bits();
        let b: u64 = other.size_bits();
        if a > INFINITY || b > INFINITY {
            return false;
        }
        if self.bits >= SIGN {
            if other.bits >= SIGN {
                b < a
            } else {
                a > 0 || b > 0
            }
        } else {
            if other.bits >= SIGN {
                false
            } else {
                a < b
            }
        }
    }

    /// The value written as a whole number, a half rounded to the even neighbour.
    pub fn write(&self) -> (out: String)
        ensures
            out@ == self.label(),
    {
        let size: u64 = self.size_bits();
        if size > INFINITY {
            return "NaN".to_owned();
        }
        let number: String = if size == INFINITY {
            "inf".to_owned()
        } else {
            self.write_size(size)
        };
        if self.bits >= SIGN {
            let mut out: String = "-".to_owned();
            out.append(number.as_str());
            out
        } else {
            number
        }
    }

    /// The size of a finite value written as a whole number.
    fn write_size(&self, size: u64) -> (out: String)
        requires
            size == self.magnitude(),
            size < INFINITY,
        ensures
            out@ == decimal(rounded(self.mantissa(), self.exponent())),
    {
        let fraction: u64 = size % HIDDEN;
        let m: u64 = if size < HIDDEN { fraction } else { fraction + HIDDEN };
        let scale: u64 = if size < HIDDEN { 1 } else { size / HIDDEN };
        if scale >= 1075 {
            return write_scaled(m, (scale - 1075) as u32);
        }
        let places: u64 = 1075 - scale;
        proof {
            assert(self.exponent() == -places);
            lemma2_to64();
            lemma2_to64_rest();
        }
        if places >= 54 {
            proof {
                let unit = pow2(places as nat);
                if places > 54 {
                    lemma_pow2_strictly_increases(54, places as nat);
                }
                assert(unit >= 0x40_0000_0000_0000);
                assert(m as nat / unit == 0 && m as nat % unit == m) by {
                    vstd::arithmetic::div_mod::lemma_basic_div(m as int, unit as int);
                    vstd::arithmetic::div_mod::lemma_small_mod(m as nat, unit);
                }
            }
            return write_decimal(0);
        }
        let mut unit: u64 = 1;
        let mut i: u64 = 0;
        while i < places
            invariant
                i <= places < 54,
                unit == pow2(i as nat),
            decreases places - i,
        {
            proof {
                lemma2_to64_rest();
                lemma_pow2_unfold((i + 1) as nat);
                if i < 53 {
                    lemma_pow2_strictly_increases(i as nat, 53);
                }
            }
            unit = unit * 2;
            i = i + 1;
        }
        proof {
            lemma2_to64_rest();
            lemma_pow2_pos(places as nat);
            if places < 53 {
                lemma_pow2_strictly_increases(places as nat, 53);
            }
        }
        let whole: u64 = m / unit;
        let rest: u64 = m % unit;
        if 2 * rest > unit || (2 * rest == unit && whole % 2 == 1) {
            proof {
                vstd::arithmetic::div_mod::lemma_div_is_ordered_by_denominator(
                    m as int,
                    1,
                    unit as int,
                );
            }
            write_decimal(whole + 1)
        } else {
            write_decimal(whole)
        }
    }
}

/// Equal as numbers: the two zeros are equal, and what is no number equals nothing.
impl PartialEq for Percent {
    fn eq(&self, other: &Percent) -> (r: bool) {
        let a: u64 = self.size_bits();
        let b: u64 = other.size_bits();
        a <= INFINITY && b <= INFINITY && a == b && ((self.bits >= SIGN) == (other.bits >= SIGN)
            || a == 0)
    }
}

impl vstd::std_specs::cmp::PartialEqSpecImpl for Percent {
    open spec fn obeys_eq_spec() -> bool {
        true
    }

    open spec fn eq_spec(&self, other: &Percent) -> bool {
        self.is_equal(*other)
    }
}

} // verus!
