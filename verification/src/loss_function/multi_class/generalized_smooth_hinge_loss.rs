//! Generalized smooth hinge loss, one channel per class.
//!
//! With margin `z_i = truth_i * estimate_i` and a smoothing exponent
//! `alpha > 0`, channel `i` is
//! `0` when `z_i >= 1`,
//! `(alpha + z_i^(alpha+1)) / (alpha+1) - z_i` when `0 < z_i < 1`, and
//! `alpha / (alpha+1) - z_i` when `z_i <= 0`;
//! the diagonal gradient entry is `0`, `z_i^alpha - 1` and `-1` on the same
//! branches.  The three-way split keeps the loss and its derivative
//! continuous at `z = 0` and `z = 1`, which the lemmas at the end state.

use crate::loss_function::{margin_num, pair_den, views_of, views_of_rows, LossFunction};
use crate::rational::{
    lemma_mul_bound, lemma_mul_pos, rat_add, rat_eqv, rat_int, rat_zero, Frac, FracVec, Rat, RatVec, LIMIT,
};
use crate::value::{
    all_units, diagonal_matrix, pow_v, term_pow, term_unit, unit_v, units_sum, Term, TermV, Value,
};
use vstd::prelude::*;

verus! {

#[derive(Clone, Copy, Debug)]
pub struct GeneralizedSmoothHingeLoss {
    pub alpha: Frac,
}

impl GeneralizedSmoothHingeLoss {
    pub fn new(alpha: Frac) -> (r: Self)
        ensures
            r.alpha == alpha,
    {
        Self { alpha }
    }
}

/// The rational part `alpha / (alpha+1) - z` shared by the lower and middle
/// branches.
pub open spec fn gsh_rational_part(alpha: Rat, z: Rat) -> Rat {
    Rat {
        num: alpha.num * alpha.den * z.den - z.num * (alpha.den * (alpha.num + alpha.den)),
        den: (alpha.den * (alpha.num + alpha.den)) * z.den,
    }
}

/// Middle-branch loss, `0 < z < 1`:
/// `z^(alpha+1) / (alpha+1) + (alpha / (alpha+1) - z)`.
pub open spec fn gsh_mid_loss_terms(alpha: Rat, z: Rat) -> Seq<TermV> {
    seq![
        pow_v(
            Rat { num: alpha.den, den: alpha.num + alpha.den },
            z,
            Rat { num: alpha.num + alpha.den, den: alpha.den },
        ),
    ].push(unit_v(gsh_rational_part(alpha, z)))
}

/// Lower-branch loss, `z <= 0`: `alpha / (alpha+1) - z`.
pub open spec fn gsh_low_loss_terms(alpha: Rat, z: Rat) -> Seq<TermV> {
    seq![unit_v(gsh_rational_part(alpha, z))]
}

/// Middle-branch gradient, `0 < z < 1`: `z^alpha - 1`.
pub open spec fn gsh_mid_grad_terms(alpha: Rat, z: Rat) -> Seq<TermV> {
    seq![pow_v(rat_int(1), z, alpha)].push(unit_v(rat_int(-1)))
}

/// The loss channel for margin `z`, by branch.
pub open spec fn gsh_loss_terms(alpha: Rat, z: Rat) -> Seq<TermV> {
    if z.num >= z.den {
        seq![unit_v(rat_zero())]
    } else if z.num > 0 {
        gsh_mid_loss_terms(alpha, z)
    } else {
        gsh_low_loss_terms(alpha, z)
    }
}

/// The diagonal gradient entry for margin `z`, by branch.
pub open spec fn gsh_grad_terms(alpha: Rat, z: Rat) -> Seq<TermV> {
    if z.num >= z.den {
        seq![unit_v(rat_zero())]
    } else if z.num > 0 {
        gsh_mid_grad_terms(alpha, z)
    } else {
        seq![unit_v(rat_int(-1))]
    }
}

/// The margin `z_i` as one rational.
pub open spec fn gsh_margin(t: RatVec, e: RatVec, i: int) -> Rat {
    Rat { num: margin_num(t, e, i), den: pair_den(t, e) }
}

impl GeneralizedSmoothHingeLoss {
    /// The middle-branch loss formula as a value, for any margin in range —
    /// also outside the branch, which is what the continuity lemmas and their
    /// tests look at.
    pub fn mid_branch_loss(&self, z: Frac) -> (v: Value)
        requires
            self.wf(),
            -281474976710656 <= z.num <= 281474976710656,
            0 < z.den <= 281474976710656,
        ensures
            v@ == gsh_mid_loss_terms(self.alpha@, z@),
    {
        let an: i128 = self.alpha.num;
        let ad: i128 = self.alpha.den;
        let a1: i128 = an + ad;
        proof {
            lemma_mul_bound(ad as int, a1 as int, 16777216, 33554432);
        }
        let pden: i128 = ad * a1;
        proof {
            lemma_mul_bound(an as int, ad as int, 16777216, 16777216);
            lemma_mul_bound(
                (an * ad) as int,
                z.den as int,
                281474976710656,
                281474976710656,
            );
            lemma_mul_bound(z.num as int, pden as int, 281474976710656, 562949953421312);
            lemma_mul_bound(pden as int, z.den as int, 562949953421312, 281474976710656);
        }
        let rnum: i128 = an * ad * z.den - z.num * pden;
        let rden: i128 = pden * z.den;
        let mut terms: Vec<Term> = Vec::new();
        terms.push(term_pow(Frac { num: ad, den: a1 }, z, Frac { num: a1, den: ad }));
        terms.push(term_unit(Frac { num: rnum, den: rden }));
        let v = Value { terms };
        proof {
            assert(v@ =~= gsh_mid_loss_terms(self.alpha@, z@));
        }
        v
    }

    /// The middle-branch gradient formula as a value, for any margin in
    /// range.
    pub fn mid_branch_grad(&self, z: Frac) -> (v: Value)
        requires
            self.wf(),
            -281474976710656 <= z.num <= 281474976710656,
            0 < z.den <= 281474976710656,
        ensures
            v@ == gsh_mid_grad_terms(self.alpha@, z@),
    {
        let mut terms: Vec<Term> = Vec::new();
        terms.push(term_pow(Frac { num: 1, den: 1 }, z, self.alpha));
        terms.push(term_unit(Frac { num: -1, den: 1 }));
        let v = Value { terms };
        proof {
            assert(v@ =~= gsh_mid_grad_terms(self.alpha@, z@));
        }
        v
    }

    /// The lower-branch loss formula as a value, for any margin in range.
    pub fn low_branch_loss(&self, z: Frac) -> (v: Value)
        requires
            self.wf(),
            -281474976710656 <= z.num <= 281474976710656,
            0 < z.den <= 281474976710656,
        ensures
            v@ == gsh_low_loss_terms(self.alpha@, z@),
    {
        let an: i128 = self.alpha.num;
        let ad: i128 = self.alpha.den;
        let a1: i128 = an + ad;
        proof {
            lemma_mul_bound(ad as int, a1 as int, 16777216, 33554432);
        }
        let pden: i128 = ad * a1;
        proof {
            lemma_mul_bound(an as int, ad as int, 16777216, 16777216);
            lemma_mul_bound(
                (an * ad) as int,
                z.den as int,
                281474976710656,
                281474976710656,
            );
            lemma_mul_bound(z.num as int, pden as int, 281474976710656, 562949953421312);
            lemma_mul_bound(pden as int, z.den as int, 562949953421312, 281474976710656);
        }
        let rnum: i128 = an * ad * z.den - z.num * pden;
        let rden: i128 = pden * z.den;
        let v = Value::unit(Frac { num: rnum, den: rden });
        proof {
            assert(v@ =~= gsh_low_loss_terms(self.alpha@, z@));
        }
        v
    }
}

impl LossFunction for GeneralizedSmoothHingeLoss {
    open spec fn wf(&self) -> bool {
        &&& 0 < self.alpha@.num <= LIMIT as int
        &&& 0 < self.alpha@.den <= LIMIT as int
    }

    open spec fn truth_len_of(&self, n_est: nat) -> nat {
        n_est
    }

    open spec fn loss_len_of(&self, n_est: nat) -> nat {
        n_est
    }

    open spec fn loss_domain(&self, t: RatVec, e: RatVec) -> bool {
        true
    }

    open spec fn grad_domain(&self, t: RatVec, e: RatVec) -> bool {
        true
    }

    open spec fn loss_spec(&self, t: RatVec, e: RatVec) -> Seq<Seq<TermV>> {
        Seq::new(e.nums.len(), |i: int| gsh_loss_terms(self.alpha@, gsh_margin(t, e, i)))
    }

    open spec fn grad_spec(&self, t: RatVec, e: RatVec) -> Seq<Seq<Seq<TermV>>> {
        Seq::new(
            e.nums.len(),
            |r: int|
                Seq::new(
                    e.nums.len(),
                    |c: int|
                        if r == c {
                            gsh_grad_terms(self.alpha@, gsh_margin(t, e, r))
                        } else {
                            seq![unit_v(rat_zero())]
                        },
                ),
        )
    }

    fn truth_len_for(&self, n_est: usize) -> (r: usize) {
        n_est
    }

    fn lf_loss(&self, y_true: &FracVec, y_est: &FracVec) -> (l: Vec<Value>) {
        let n: usize = y_est.nums.len();
        let dt: i128 = y_true.den;
        let de: i128 = y_est.den;
        proof {
            lemma_mul_bound(dt as int, de as int, 16777216, 16777216);
            lemma_mul_pos(dt as int, de as int);
        }
        let zd: i128 = dt * de;
        let mut l: Vec<Value> = Vec::new();
        let mut i: usize = 0;
        while i < n
            invariant
                self.wf(),
                y_true@.valid(),
                y_est@.valid(),
                n == y_est@.nums.len(),
                n == y_true@.nums.len(),
                dt == y_true@.den,
                de == y_est@.den,
                zd == dt * de,
                0 < zd <= 281474976710656,
                0 <= i <= n,
                l@.len() == i,
                forall|j: int|
                    0 <= j < i ==> #[trigger] l@[j]@ == gsh_loss_terms(
                        self.alpha@,
                        gsh_margin(y_true@, y_est@, j),
                    ),
            decreases n - i,
        {
            proof {
                lemma_mul_bound(y_true@.nums[i as int], y_est@.nums[i as int], 16777216, 16777216);
            }
            let zn: i128 = y_true.nums[i] * y_est.nums[i];
            let z = Frac { num: zn, den: zd };
            if zn >= zd {
                l.push(Value::unit(Frac { num: 0, den: 1 }));
            } else if zn > 0 {
                l.push(self.mid_branch_loss(z));
            } else {
                l.push(self.low_branch_loss(z));
            }
            i += 1;
        }
        proof {
            assert(views_of(l@) =~~= self.loss_spec(y_true@, y_est@));
        }
        l
    }

    fn lf_loss_grad(&self, y_true: &FracVec, y_est: &FracVec) -> (g: Vec<Vec<Value>>) {
        let n: usize = y_est.nums.len();
        let dt: i128 = y_true.den;
        let de: i128 = y_est.den;
        proof {
            lemma_mul_bound(dt as int, de as int, 16777216, 16777216);
            lemma_mul_pos(dt as int, de as int);
        }
        let zd: i128 = dt * de;
        let mut diag: Vec<Value> = Vec::new();
        let mut i: usize = 0;
        while i < n
            invariant
                self.wf(),
                y_true@.valid(),
                y_est@.valid(),
                n == y_est@.nums.len(),
                n == y_true@.nums.len(),
                dt == y_true@.den,
                de == y_est@.den,
                zd == dt * de,
                0 < zd <= 281474976710656,
                0 <= i <= n,
                diag@.len() == i,
                forall|j: int|
                    0 <= j < i ==> #[trigger] diag@[j]@ == gsh_grad_terms(
                        self.alpha@,
                        gsh_margin(y_true@, y_est@, j),
                    ),
            decreases n - i,
        {
            proof {
                lemma_mul_bound(y_true@.nums[i as int], y_est@.nums[i as int], 16777216, 16777216);
            }
            let zn: i128 = y_true.nums[i] * y_est.nums[i];
            let z = Frac { num: zn, den: zd };
            if zn >= zd {
                diag.push(Value::unit(Frac { num: 0, den: 1 }));
            } else if zn > 0 {
                diag.push(self.mid_branch_grad(z));
            } else {
                diag.push(Value::unit(Frac { num: -1, den: 1 }));
            }
            i += 1;
        }
        let g = diagonal_matrix(&diag);
        proof {
            assert(views_of_rows(g@) =~~= self.grad_spec(y_true@, y_est@));
        }
        g
    }
}

/// Law: at `z = 1` the middle-branch loss collapses to rational terms whose
/// sum is the upper branch's value, zero.
pub proof fn lemma_gsh_loss_continuous_at_one(alpha: Rat, z: Rat)
    requires
        0 < alpha.num,
        0 < alpha.den,
        0 < z.den,
        z.num == z.den,
    ensures
        all_units(gsh_mid_loss_terms(alpha, z)),
        rat_eqv(units_sum(gsh_mid_loss_terms(alpha, z), 2), rat_zero()),
{
    reveal_with_fuel(units_sum, 3);
    let ts = gsh_mid_loss_terms(alpha, z);
    let c1 = Rat { num: alpha.den, den: alpha.num + alpha.den };
    let r = gsh_rational_part(alpha, z);
    assert(ts[0] == unit_v(c1));
    assert(ts[1] == unit_v(r));
    let s0 = units_sum(ts, 0);
    assert(s0 == rat_zero());
    assert(s0.num == 0 && s0.den == 1);
    let s1 = units_sum(ts, 1);
    assert(s1 == rat_add(s0, ts[0].coef));
    assert(s1.num == c1.num && s1.den == c1.den);
    let s2 = units_sum(ts, 2);
    assert(s2 == rat_add(s1, ts[1].coef));
    assert(s2.num == alpha.den * r.den + r.num * (alpha.num + alpha.den));
    assert(r.num == alpha.num * alpha.den * z.den - z.den * (alpha.den * (alpha.num + alpha.den)));
    assert(alpha.den * ((alpha.den * (alpha.num + alpha.den)) * z.den) + (alpha.num * alpha.den
        * z.den - z.den * (alpha.den * (alpha.num + alpha.den))) * (alpha.num + alpha.den)
        == 0) by (nonlinear_arith);
    assert(s2.num == 0);
    assert(rat_eqv(s2, rat_zero()));
}

/// Law: at `z = 0` the middle-branch loss collapses to rational terms whose
/// sum is the lower branch's value there, `alpha / (alpha+1)`.
pub proof fn lemma_gsh_loss_continuous_at_zero(alpha: Rat, z: Rat)
    requires
        0 < alpha.num,
        0 < alpha.den,
        0 < z.den,
        z.num == 0,
    ensures
        all_units(gsh_mid_loss_terms(alpha, z)),
        rat_eqv(units_sum(gsh_mid_loss_terms(alpha, z), 2), gsh_rational_part(alpha, z)),
        gsh_low_loss_terms(alpha, z) == seq![unit_v(gsh_rational_part(alpha, z))],
{
    reveal_with_fuel(units_sum, 3);
    let ts = gsh_mid_loss_terms(alpha, z);
    let r = gsh_rational_part(alpha, z);
    assert(ts[0] == unit_v(rat_zero()));
    assert(ts[1] == unit_v(r));
    let s0 = units_sum(ts, 0);
    assert(s0 == rat_zero());
    assert(s0.num == 0 && s0.den == 1);
    let s1 = units_sum(ts, 1);
    assert(s1 == rat_add(s0, ts[0].coef));
    assert(s1.num == 0 && s1.den == 1);
    let s2 = units_sum(ts, 2);
    assert(s2 == rat_add(s1, ts[1].coef));
    assert(s2.num == r.num && s2.den == r.den);
    assert(rat_eqv(s2, r));
}

/// Law: at `z = 1` the middle-branch gradient collapses to rational terms
/// whose sum is the upper branch's value, zero.
pub proof fn lemma_gsh_grad_continuous_at_one(alpha: Rat, z: Rat)
    requires
        0 < alpha.num,
        0 < alpha.den,
        0 < z.den,
        z.num == z.den,
    ensures
        all_units(gsh_mid_grad_terms(alpha, z)),
        rat_eqv(units_sum(gsh_mid_grad_terms(alpha, z), 2), rat_zero()),
{
    reveal_with_fuel(units_sum, 3);
    let ts = gsh_mid_grad_terms(alpha, z);
    assert(ts[0] == unit_v(rat_int(1)));
    assert(ts[1] == unit_v(rat_int(-1)));
    let s0 = units_sum(ts, 0);
    assert(s0 == rat_zero());
    assert(s0.num == 0 && s0.den == 1);
    let s1 = units_sum(ts, 1);
    assert(s1 == rat_add(s0, ts[0].coef));
    assert(s1.num == 1 && s1.den == 1);
    let s2 = units_sum(ts, 2);
    assert(s2 == rat_add(s1, ts[1].coef));
    assert(s2.num == 0 && s2.den == 1);
    assert(rat_eqv(s2, rat_zero()));
}

/// Law: at `z = 0` the middle-branch gradient collapses to rational terms
/// whose sum is the lower branch's value, `-1`.
pub proof fn lemma_gsh_grad_continuous_at_zero(alpha: Rat, z: Rat)
    requires
        0 < alpha.num,
        0 < alpha.den,
        0 < z.den,
        z.num == 0,
    ensures
        all_units(gsh_mid_grad_terms(alpha, z)),
        rat_eqv(units_sum(gsh_mid_grad_terms(alpha, z), 2), rat_int(-1)),
{
    reveal_with_fuel(units_sum, 3);
    let ts = gsh_mid_grad_terms(alpha, z);
    assert(ts[0] == unit_v(rat_zero()));
    assert(ts[1] == unit_v(rat_int(-1)));
    let s0 = units_sum(ts, 0);
    assert(s0 == rat_zero());
    assert(s0.num == 0 && s0.den == 1);
    let s1 = units_sum(ts, 1);
    assert(s1 == rat_add(s0, ts[0].coef));
    assert(s1.num == 0 && s1.den == 1);
    let s2 = units_sum(ts, 2);
    assert(s2 == rat_add(s1, ts[1].coef));
    assert(s2.num == -1 && s2.den == 1);
    assert(rat_eqv(s2, rat_int(-1)));
}

} // verus!
