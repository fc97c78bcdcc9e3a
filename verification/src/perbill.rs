//! Parts-per-billion fixed-point fraction, used for validator commissions,
//! reward proportions and slash fractions. All operations round down and
//! saturate; no floating point is involved.

use vstd::arithmetic::div_mod::{
    lemma_div_is_ordered, lemma_div_multiples_vanish, lemma_multiply_divide_lt,
};
use vstd::arithmetic::mul::{
    lemma_mul_inequality, lemma_mul_is_commutative, lemma_mul_strict_inequality,
    lemma_mul_upper_bound,
};
use vstd::prelude::*;

verus! {

/// Number of parts that make up the whole.
pub const ACCURACY: u32 = 1_000_000_000;

/// A fraction in [0, 1] with a denominator of one billion.
#[derive(Clone, Copy, PartialEq, Eq, Structural, Debug)]
pub struct Perbill {
    pub parts: u32,
}

/// `(x * parts) / ACCURACY`, the exact value of scaling `x` by a fraction of
/// `parts` parts per billion.
pub open spec fn scaled_by_parts(x: int, parts: int) -> int {
    (x * parts) / (ACCURACY as int)
}

/// The parts-per-billion numerator of the fraction `n / d`, rounded down and
/// saturated at one; a zero denominator counts as one.
pub open spec fn rational_parts(n: int, d: int) -> int {
    let dd = if d <= 0 {
        1
    } else {
        d
    };
    if n >= dd {
        ACCURACY as int
    } else {
        (n * (ACCURACY as int)) / dd
    }
}

impl Perbill {
    /// Well-formed: no more parts than the whole.
    pub open spec fn wf(self) -> bool {
        self.parts <= ACCURACY
    }

    /// A fraction of `parts` parts per billion, saturating at one.
    pub fn from_parts(parts: u32) -> (r: Perbill)
        ensures
            r.wf(),
            r.parts == if parts <= ACCURACY {
                parts
            } else {
                ACCURACY
            },
    {
        if parts <= ACCURACY {
            Perbill { parts }
        } else {
            Perbill { parts: ACCURACY }
        }
    }

    /// `p` percent, saturating at one hundred.
    pub fn from_percent(p: u32) -> (r: Perbill)
        ensures
            r.wf(),
            r.parts == if p <= 100 {
                (p * 10_000_000) as int
            } else {
                ACCURACY as int
            },
    {
        if p <= 100 {
            Perbill { parts: p * 10_000_000 }
        } else {
            Perbill { parts: ACCURACY }
        }
    }

    /// The fraction `n / d`, rounded down, saturating at one; a zero
    /// denominator counts as one.
    pub fn from_rational(n: u64, d: u64) -> (r: Perbill)
        ensures
            r.wf(),
            r.parts == rational_parts(n as int, d as int),
    {
        let d = if d == 0 {
            1
        } else {
            d
        };
        if n >= d {
            Perbill { parts: ACCURACY }
        } else {
            proof {
                lemma_mul_upper_bound(n as int, u64::MAX as int, ACCURACY as int, ACCURACY as int);
            }
            let wide: u128 = (n as u128) * (ACCURACY as u128);
            let q: u128 = wide / (d as u128);
            proof {
                assert(n as int * (ACCURACY as int) < d as int * (ACCURACY as int)) by {
                    lemma_mul_strict_inequality(n as int, d as int, ACCURACY as int);
                }
                lemma_multiply_divide_lt(n as int * (ACCURACY as int), d as int, ACCURACY as int);
            }
            Perbill { parts: q as u32 }
        }
    }

    /// Scale a balance by this fraction, rounding down. The result never
    /// exceeds the input.
    pub fn mul_balance(self, x: u64) -> (r: u64)
        requires
            self.wf(),
        ensures
            r == scaled_by_parts(x as int, self.parts as int),
            r <= x,
    {
        proof {
            lemma_mul_upper_bound(x as int, u64::MAX as int, self.parts as int, ACCURACY as int);
        }
        let wide: u128 = (x as u128) * (self.parts as u128);
        let q: u128 = wide / (ACCURACY as u128);
        proof {
            assert(x as int * self.parts as int <= x as int * ACCURACY as int) by {
                lemma_mul_inequality(self.parts as int, ACCURACY as int, x as int);
                lemma_mul_is_commutative(x as int, self.parts as int);
                lemma_mul_is_commutative(x as int, ACCURACY as int);
            }
            lemma_div_is_ordered(
                x as int * self.parts as int,
                x as int * ACCURACY as int,
                ACCURACY as int,
            );
            lemma_div_multiples_vanish(x as int, ACCURACY as int);
        }
        q as u64
    }
}

impl Default for Perbill {
    /// The zero fraction.
    fn default() -> (r: Perbill)
        ensures
            r.wf(),
            r.parts == 0,
    {
        Perbill { parts: 0 }
    }
}

} // verus!
