//! Exact symbolic loss values.
//!
//! A loss channel or a gradient entry is a sum of terms.  Each term is a
//! rational coefficient times a unit, a logarithm of a rational, an
//! exponential of a rational, or a rational raised to a rational power.  The
//! formulas build these sums exactly; turning a logarithm, an exponential or
//! a power into a number is the caller's business, along with whatever
//! non-finite results a logarithm of a non-positive argument produces there.

use crate::rational::{rat_add, rat_zero, Frac, Rat};
use vstd::prelude::*;

verus! {

/// Mathematical model of a term's shape.
pub enum TermShape {
    /// The coefficient itself.
    Unit,
    /// Coefficient times the natural logarithm of the argument.
    Ln(Rat),
    /// Coefficient times the exponential of the argument.
    Exp(Rat),
    /// Coefficient times `base` raised to `expo`.
    Pow { base: Rat, expo: Rat },
}

/// Mathematical model of a term.
pub struct TermV {
    pub coef: Rat,
    pub shape: TermShape,
}

/// A rational term.
pub open spec fn unit_v(coef: Rat) -> TermV {
    TermV { coef, shape: TermShape::Unit }
}

/// A logarithm term.
pub open spec fn ln_v(coef: Rat, arg: Rat) -> TermV {
    TermV { coef, shape: TermShape::Ln(arg) }
}

/// An exponential term.
pub open spec fn exp_v(coef: Rat, arg: Rat) -> TermV {
    TermV { coef, shape: TermShape::Exp(arg) }
}

/// A power term.  For a positive-denominator base and exponent, a base equal
/// to one collapses to the coefficient (`1` raised to anything is `1`), and a
/// zero base with a positive exponent collapses to zero (`0` raised to a
/// positive power is `0`); these identities give the piecewise formulas exact
/// values on their branch boundaries.
pub open spec fn pow_v(coef: Rat, base: Rat, expo: Rat) -> TermV {
    if base.num == base.den {
        unit_v(coef)
    } else if base.num == 0 && 0 < expo.num {
        unit_v(rat_zero())
    } else {
        TermV { coef, shape: TermShape::Pow { base, expo } }
    }
}

/// Executable term shape.
#[derive(Clone, Copy, Debug, PartialEq, Eq, Structural)]
pub enum Shape {
    Unit,
    Ln(Frac),
    Exp(Frac),
    Pow { base: Frac, expo: Frac },
}

impl View for Shape {
    type V = TermShape;

    open spec fn view(&self) -> TermShape {
        match *self {
            Shape::Unit => TermShape::Unit,
            Shape::Ln(a) => TermShape::Ln(a@),
            Shape::Exp(a) => TermShape::Exp(a@),
            Shape::Pow { base, expo } => TermShape::Pow { base: base@, expo: expo@ },
        }
    }
}

/// Executable term.
#[derive(Clone, Copy, Debug, PartialEq, Eq, Structural)]
pub struct Term {
    pub coef: Frac,
    pub shape: Shape,
}

impl View for Term {
    type V = TermV;

    open spec fn view(&self) -> TermV {
        TermV { coef: self.coef@, shape: self.shape@ }
    }
}

/// Whether every term of the sum is rational.
pub open spec fn all_units(ts: Seq<TermV>) -> bool {
    forall|i: int| 0 <= i < ts.len() ==> (#[trigger] ts[i].shape) is Unit
}

/// Sum of the coefficients of the first `k` terms, as one rational.
pub open spec fn units_sum(ts: Seq<TermV>, k: int) -> Rat
    decreases k,
{
    if k <= 0 {
        rat_zero()
    } else {
        rat_add(units_sum(ts, k - 1), ts[k - 1].coef)
    }
}

/// A rational term, at the term level.
pub fn term_unit(coef: Frac) -> (t: Term)
    ensures
        t@ == unit_v(coef@),
{
    Term { coef, shape: Shape::Unit }
}

/// A logarithm term, at the term level.
pub fn term_ln(coef: Frac, arg: Frac) -> (t: Term)
    ensures
        t@ == ln_v(coef@, arg@),
{
    Term { coef, shape: Shape::Ln(arg) }
}

/// An exponential term, at the term level.
pub fn term_exp(coef: Frac, arg: Frac) -> (t: Term)
    ensures
        t@ == exp_v(coef@, arg@),
{
    Term { coef, shape: Shape::Exp(arg) }
}

/// A power term, at the term level, with the boundary identities of `pow_v`
/// applied.
pub fn term_pow(coef: Frac, base: Frac, expo: Frac) -> (t: Term)
    ensures
        t@ == pow_v(coef@, base@, expo@),
{
    if base.num == base.den {
        Term { coef, shape: Shape::Unit }
    } else if base.num == 0 && expo.num > 0 {
        Term { coef: Frac { num: 0, den: 1 }, shape: Shape::Unit }
    } else {
        Term { coef, shape: Shape::Pow { base, expo } }
    }
}

/// Executable loss value: a sum of terms.
#[derive(Debug)]
pub struct Value {
    pub terms: Vec<Term>,
}

impl View for Value {
    type V = Seq<TermV>;

    open spec fn view(&self) -> Seq<TermV> {
        self.terms@.map_values(|t: Term| t@)
    }
}

impl Value {
    /// A single rational term.
    pub fn unit(coef: Frac) -> (v: Value)
        ensures
            v@ == seq![unit_v(coef@)],
    {
        let mut terms: Vec<Term> = Vec::new();
        terms.push(Term { coef, shape: Shape::Unit });
        let v = Value { terms };
        proof {
            assert(v@ =~= seq![unit_v(coef@)]);
        }
        v
    }

    /// The zero value.
    pub fn zero() -> (v: Value)
        ensures
            v@ == seq![unit_v(rat_zero())],
    {
        Value::unit(Frac { num: 0, den: 1 })
    }

    /// A single logarithm term.
    pub fn ln_term(coef: Frac, arg: Frac) -> (v: Value)
        ensures
            v@ == seq![ln_v(coef@, arg@)],
    {
        let mut terms: Vec<Term> = Vec::new();
        terms.push(Term { coef, shape: Shape::Ln(arg) });
        let v = Value { terms };
        proof {
            assert(v@ =~= seq![ln_v(coef@, arg@)]);
        }
        v
    }

    /// A single exponential term.
    pub fn exp_term(coef: Frac, arg: Frac) -> (v: Value)
        ensures
            v@ == seq![exp_v(coef@, arg@)],
    {
        let mut terms: Vec<Term> = Vec::new();
        terms.push(Term { coef, shape: Shape::Exp(arg) });
        let v = Value { terms };
        proof {
            assert(v@ =~= seq![exp_v(coef@, arg@)]);
        }
        v
    }

    /// A single power term, with the boundary identities of `pow_v` applied.
    pub fn pow_term(coef: Frac, base: Frac, expo: Frac) -> (v: Value)
        ensures
            v@ == seq![pow_v(coef@, base@, expo@)],
    {
        let mut terms: Vec<Term> = Vec::new();
        let t: Term = if base.num == base.den {
            Term { coef, shape: Shape::Unit }
        } else if base.num == 0 && expo.num > 0 {
            Term { coef: Frac { num: 0, den: 1 }, shape: Shape::Unit }
        } else {
            Term { coef, shape: Shape::Pow { base, expo } }
        };
        terms.push(t);
        let v = Value { terms };
        proof {
            assert(v@ =~= seq![pow_v(coef@, base@, expo@)]);
        }
        v
    }

    /// An exact copy.
    pub fn dup(&self) -> (r: Value)
        ensures
            r@ == self@,
    {
        let n: usize = self.terms.len();
        let mut terms: Vec<Term> = Vec::new();
        let mut i: usize = 0;
        while i < n
            invariant
                n == self.terms@.len(),
                0 <= i <= n,
                terms@ == self.terms@.take(i as int),
            decreases n - i,
        {
            terms.push(self.terms[i]);
            proof {
                assert(terms@ =~= self.terms@.take(i + 1 as int));
            }
            i += 1;
        }
        proof {
            assert(terms@ =~= self.terms@);
        }
        Value { terms }
    }
}

/// Whether two terms denote the same term, by their exact shape.
pub fn term_eq(a: &Term, b: &Term) -> (r: bool)
    ensures
        r == (a@ == b@),
{
    a == b
}

/// Whether two values are the same exact sum of terms.
pub fn value_eq(a: &Value, b: &Value) -> (r: bool)
    ensures
        r == (a@ == b@),
{
    let n: usize = a.terms.len();
    if n != b.terms.len() {
        proof {
            assert(a@.len() != b@.len());
        }
        return false;
    }
    let mut i: usize = 0;
    while i < n
        invariant
            n == a.terms@.len(),
            n == b.terms@.len(),
            0 <= i <= n,
            forall|j: int| 0 <= j < i ==> a@[j] == b@[j],
        decreases n - i,
    {
        if !term_eq(&a.terms[i], &b.terms[i]) {
            proof {
                assert(a@[i as int] != b@[i as int]);
            }
            return false;
        }
        i += 1;
    }
    proof {
        assert(a@ =~= b@);
    }
    true
}

/// The matrix whose diagonal is `diag` and whose other entries are zero.
pub fn diagonal_matrix(diag: &Vec<Value>) -> (m: Vec<Vec<Value>>)
    ensures
        m@.len() == diag@.len(),
        forall|r: int| 0 <= r < m@.len() ==> #[trigger] m@[r]@.len() == diag@.len(),
        forall|r: int, c: int|
            0 <= r < m@.len() && 0 <= c < m@.len() ==> #[trigger] m@[r]@[c]@ == (if r == c {
                diag@[r]@
            } else {
                seq![unit_v(rat_zero())]
            }),
{
    let n: usize = diag.len();
    let mut m: Vec<Vec<Value>> = Vec::new();
    let mut r: usize = 0;
    while r < n
        invariant
            n == diag@.len(),
            0 <= r <= n,
            m@.len() == r,
            forall|k: int| 0 <= k < r ==> #[trigger] m@[k]@.len() == n,
            forall|k: int, c: int|
                0 <= k < r && 0 <= c < n ==> #[trigger] m@[k]@[c]@ == (if k == c {
                    diag@[k]@
                } else {
                    seq![unit_v(rat_zero())]
                }),
        decreases n - r,
    {
        let mut row: Vec<Value> = Vec::new();
        let mut c: usize = 0;
        while c < n
            invariant
                n == diag@.len(),
                0 <= c <= n,
                r < n,
                row@.len() == c,
                forall|j: int| 0 <= j < c ==> #[trigger] row@[j]@ == (if r == j {
                    diag@[r as int]@
                } else {
                    seq![unit_v(rat_zero())]
                }),
            decreases n - c,
        {
            if c == r {
                row.push(diag[r].dup());
            } else {
                row.push(Value::zero());
            }
            c += 1;
        }
        m.push(row);
        r += 1;
    }
    m
}

} // verus!
