//! Exact rational scalars and scaled-integer vectors.
//!
//! A scalar is a fraction `num / den` of `i128` components with a positive
//! denominator.  A vector is a list of integer numerators over one shared
//! positive denominator, which keeps the common denominator of sums small
//! enough that every intermediate product of the loss formulas provably fits
//! in an `i128` once the inputs are bounded by `LIMIT`.

use vstd::prelude::*;

verus! {

/// Largest magnitude admitted for an input numerator, an input denominator and
/// an input length.  The bound is what the machine forces: with inputs inside
/// it, every intermediate value of every formula fits in an `i128`.  Its
/// powers appear as plain numerals in the overflow proofs, since the prover
/// folds numeral products but not products of named constants:
/// `2^24 = 16777216`, `2^48 = 281474976710656`, `2^49 = 562949953421312`,
/// `2^96 = 79228162514264337593543950336` and so on.
pub const LIMIT: i128 = 16777216;

/// Magnitude under which two fractions can be compared by cross-multiplying
/// without overflowing an `i128`.
pub const CMP_LIMIT: i128 = 0x4000_0000_0000_0000;

/// Mathematical model of a fraction: an unbounded numerator and denominator.
pub struct Rat {
    pub num: int,
    pub den: int,
}

impl Rat {
    /// A fraction denotes a rational number only when its denominator is
    /// positive.
    pub open spec fn wf(self) -> bool {
        0 < self.den
    }

    /// Small enough to be an input to a loss formula.
    pub open spec fn bounded(self) -> bool {
        &&& -(LIMIT as int) <= self.num <= LIMIT as int
        &&& 0 < self.den <= LIMIT as int
    }
}

/// The rational zero.
pub open spec fn rat_zero() -> Rat {
    Rat { num: 0, den: 1 }
}

/// The integer `n` as a rational.
pub open spec fn rat_int(n: int) -> Rat {
    Rat { num: n, den: 1 }
}

/// Absolute value.
pub open spec fn abs_int(x: int) -> int {
    if x < 0 {
        -x
    } else {
        x
    }
}

/// Sign, with the sign of zero taken as positive (the `copysign` convention
/// of the mean-absolute-error gradient).
pub open spec fn sign_pos_int(x: int) -> int {
    if x >= 0 {
        1
    } else {
        -1
    }
}

/// Equality of the denoted rationals, by cross-multiplication.  Meaningful
/// when both denominators are positive.
pub open spec fn rat_eqv(a: Rat, b: Rat) -> bool {
    a.num * b.den == b.num * a.den
}

/// `a < b` on the denoted rationals, for positive denominators.
pub open spec fn rat_lt(a: Rat, b: Rat) -> bool {
    a.num * b.den < b.num * a.den
}

/// Sum of two fractions, by cross-multiplication.
pub open spec fn rat_add(a: Rat, b: Rat) -> Rat {
    Rat { num: a.num * b.den + b.num * a.den, den: a.den * b.den }
}

/// The fraction `num / den` with the sign moved into the numerator, so that
/// the denominator comes out positive whenever `den != 0`.
pub open spec fn norm_rat(num: int, den: int) -> Rat {
    if 0 < den {
        Rat { num, den }
    } else {
        Rat { num: -num, den: -den }
    }
}

/// Executable fraction.
#[derive(Clone, Copy, Debug, PartialEq, Eq, Structural)]
pub struct Frac {
    pub num: i128,
    pub den: i128,
}

impl View for Frac {
    type V = Rat;

    open spec fn view(&self) -> Rat {
        Rat { num: self.num as int, den: self.den as int }
    }
}

impl Frac {
    /// The fraction `num / den` with the denominator made positive.
    pub fn new_signed(num: i128, den: i128) -> (r: Frac)
        requires
            den != 0,
            num != i128::MIN,
            den != i128::MIN,
        ensures
            r@ == norm_rat(num as int, den as int),
            0 < r.den,
    {
        if den > 0 {
            Frac { num, den }
        } else {
            Frac { num: -num, den: -den }
        }
    }
}

/// Whether `a` and `b` denote the same rational.  The magnitude bound keeps
/// the cross-products inside `i128`.
pub fn frac_eq(a: &Frac, b: &Frac) -> (r: bool)
    requires
        -CMP_LIMIT < a.num < CMP_LIMIT,
        0 < a.den < CMP_LIMIT,
        -CMP_LIMIT < b.num < CMP_LIMIT,
        0 < b.den < CMP_LIMIT,
    ensures
        r == rat_eqv(a@, b@),
{
    proof {
        lemma_mul_bound(a.num as int, b.den as int, CMP_LIMIT as int, CMP_LIMIT as int);
        lemma_mul_bound(b.num as int, a.den as int, CMP_LIMIT as int, CMP_LIMIT as int);
    }
    a.num * b.den == b.num * a.den
}

/// Mathematical model of a scaled-integer vector: the numerators, over one
/// shared denominator.
pub struct RatVec {
    pub nums: Seq<int>,
    pub den: int,
}

impl RatVec {
    pub open spec fn wf(self) -> bool {
        0 < self.den
    }

    /// All components and the length inside the machine bound.
    pub open spec fn bounded(self) -> bool {
        &&& 0 < self.den <= LIMIT as int
        &&& self.nums.len() <= LIMIT as int
        &&& forall|i: int|
            0 <= i < self.nums.len() ==> -(LIMIT as int) <= #[trigger] self.nums[i]
                <= LIMIT as int
    }

    pub open spec fn valid(self) -> bool {
        self.wf() && self.bounded()
    }

    /// The `i`-th component as a rational.
    pub open spec fn at(self, i: int) -> Rat {
        Rat { num: self.nums[i], den: self.den }
    }
}

/// Executable scaled-integer vector: `nums[i] / den` for each component.
#[derive(Debug)]
pub struct FracVec {
    pub nums: Vec<i128>,
    pub den: i128,
}

impl View for FracVec {
    type V = RatVec;

    open spec fn view(&self) -> RatVec {
        RatVec { nums: self.nums@.map_values(|x: i128| x as int), den: self.den as int }
    }
}

impl FracVec {
    /// Checked constructor: accepts exactly the vectors whose components and
    /// denominator the formulas admit.
    pub fn new(nums: Vec<i128>, den: i128) -> (r: Option<FracVec>)
        ensures
            match r {
                Some(v) => v@.valid() && v.nums@ == nums@ && v.den == den,
                None => !(RatVec {
                    nums: nums@.map_values(|x: i128| x as int),
                    den: den as int,
                }).valid(),
            },
    {
        if den <= 0 || den > LIMIT {
            return None;
        }
        if nums.len() > LIMIT as usize {
            return None;
        }
        let n: usize = nums.len();
        let mut i: usize = 0;
        while i < n
            invariant
                n == nums@.len(),
                0 <= i <= n,
                forall|j: int| 0 <= j < i ==> -LIMIT <= #[trigger] nums@[j] <= LIMIT,
            decreases n - i,
        {
            if nums[i] < -LIMIT || nums[i] > LIMIT {
                proof {
                    let m = nums@.map_values(|x: i128| x as int);
                    assert(m[i as int] == nums@[i as int]);
                }
                return None;
            }
            i += 1;
        }
        Some(FracVec { nums, den })
    }

    /// Number of components.
    pub fn len(&self) -> (r: usize)
        ensures
            r == self@.nums.len(),
    {
        self.nums.len()
    }
}

/// `|x * y| <= bx * by` whenever `|x| <= bx` and `|y| <= by`.
pub proof fn lemma_mul_bound(x: int, y: int, bx: int, by: int)
    by (nonlinear_arith)
    requires
        -bx <= x <= bx,
        -by <= y <= by,
    ensures
        -(bx * by) <= x * y <= bx * by,
{
}

/// A square is never negative.
pub proof fn lemma_square_nonneg(x: int)
    by (nonlinear_arith)
    ensures
        0 <= x * x,
{
}

/// A product of non-zeros is non-zero.
pub proof fn lemma_mul_nonzero(x: int, y: int)
    by (nonlinear_arith)
    requires
        x != 0,
        y != 0,
    ensures
        x * y != 0,
{
}

/// A product of positives is positive.
pub proof fn lemma_mul_pos(x: int, y: int)
    by (nonlinear_arith)
    requires
        0 < x,
        0 < y,
    ensures
        0 < x * y,
{
}

} // verus!
