//! Binary cross-entropy.
//!
//! For truth and estimate of one length `N >= 1`, the single loss channel is
//! `-mean(truth_i * ln(estimate_i) + (1 - truth_i) * ln(1 - estimate_i))`,
//! returned as an exact sum of logarithm terms.  A `truth_i` of exactly `0`
//! or exactly `1` drops the multiplicatively-zeroed term, so no `0 * ln(0)`
//! ever arises; soft labels strictly between contribute both terms.  The
//! gradient mirrors the same case split:
//! `-(truth_i / estimate_i - (1 - truth_i) / (1 - estimate_i)) / N`, with the
//! same boundary simplifications.  The singular estimates of each gradient
//! branch (an estimate of `0` under a non-zero truth, an estimate of `1`
//! under a truth other than one) have no exact rational value and are left
//! out of the gradient's domain.

use crate::loss_function::{views_of, views_of_rows, LossFunction};
use crate::rational::{
    lemma_mul_bound, lemma_mul_nonzero, norm_rat, rat_eqv, Frac, FracVec, Rat,
    RatVec,
};
use crate::value::{ln_v, term_ln, unit_v, Term, TermShape, TermV, Value};
use vstd::prelude::*;

verus! {

#[derive(Clone, Copy, Debug)]
pub struct BinaryCrossEntropyLoss;

/// The estimate `p_i` as a rational.
pub open spec fn bce_est(e: RatVec, i: int) -> Rat {
    Rat { num: e.nums[i], den: e.den }
}

/// `1 - p_i` as a rational.
pub open spec fn bce_co_est(e: RatVec, i: int) -> Rat {
    Rat { num: e.den - e.nums[i], den: e.den }
}

/// The logarithm terms contributed by position `i`, already scaled by
/// `-1/N`: `-truth_i/N * ln(p_i)` and `-(1-truth_i)/N * ln(1-p_i)`, the
/// first dropped when `truth_i` is zero and the second when it is one.
pub open spec fn bce_terms_at(t: RatVec, e: RatVec, i: int) -> Seq<TermV> {
    let cden = t.den * (e.nums.len() as int);
    if t.nums[i] == 0 {
        seq![ln_v(Rat { num: -(t.den - t.nums[i]), den: cden }, bce_co_est(e, i))]
    } else if t.nums[i] == t.den {
        seq![ln_v(Rat { num: -t.nums[i], den: cden }, bce_est(e, i))]
    } else {
        seq![ln_v(Rat { num: -t.nums[i], den: cden }, bce_est(e, i))].push(
            ln_v(Rat { num: -(t.den - t.nums[i]), den: cden }, bce_co_est(e, i)),
        )
    }
}

/// The terms of the loss channel contributed by the first `k` positions.
pub open spec fn bce_terms(t: RatVec, e: RatVec, k: int) -> Seq<TermV>
    decreases k,
{
    if k <= 0 {
        Seq::empty()
    } else {
        bce_terms(t, e, k - 1) + bce_terms_at(t, e, k - 1)
    }
}

/// Gradient component `i`, by the same case split as the loss.
pub open spec fn bce_grad_rat(t: RatVec, e: RatVec, i: int) -> Rat {
    let n = e.nums.len() as int;
    if t.nums[i] == 0 {
        norm_rat((t.den - t.nums[i]) * e.den, (t.den * (e.den - e.nums[i])) * n)
    } else if t.nums[i] == t.den {
        norm_rat(-(t.nums[i] * e.den), (t.den * e.nums[i]) * n)
    } else {
        norm_rat(
            -(t.nums[i] * e.den * (t.den * (e.den - e.nums[i])) - (t.den - t.nums[i]) * e.den * (
            t.den * e.nums[i])),
            ((t.den * e.nums[i]) * (t.den * (e.den - e.nums[i]))) * n,
        )
    }
}

impl LossFunction for BinaryCrossEntropyLoss {
    open spec fn wf(&self) -> bool {
        true
    }

    open spec fn truth_len_of(&self, n_est: nat) -> nat {
        n_est
    }

    open spec fn loss_len_of(&self, n_est: nat) -> nat {
        1
    }

    open spec fn loss_domain(&self, t: RatVec, e: RatVec) -> bool {
        e.nums.len() >= 1
    }

    open spec fn grad_domain(&self, t: RatVec, e: RatVec) -> bool {
        &&& e.nums.len() >= 1
        &&& forall|i: int|
            0 <= i < e.nums.len() ==> ((#[trigger] t.nums[i]) == 0 || e.nums[i] != 0) && (
            t.nums[i] == t.den || e.nums[i] != e.den)
    }

    open spec fn loss_spec(&self, t: RatVec, e: RatVec) -> Seq<Seq<TermV>> {
        seq![bce_terms(t, e, e.nums.len() as int)]
    }

    open spec fn grad_spec(&self, t: RatVec, e: RatVec) -> Seq<Seq<Seq<TermV>>> {
        seq![Seq::new(e.nums.len(), |i: int| seq![unit_v(bce_grad_rat(t, e, i))])]
    }

    fn truth_len_for(&self, n_est: usize) -> (r: usize) {
        n_est
    }

    fn lf_loss(&self, y_true: &FracVec, y_est: &FracVec) -> (l: Vec<Value>) {
        let n: usize = y_est.nums.len();
        let dt: i128 = y_true.den;
        let de: i128 = y_est.den;
        proof {
            lemma_mul_bound(dt as int, n as int, 16777216, 16777216);
        }
        let cden: i128 = dt * (n as i128);
        let mut terms: Vec<Term> = Vec::new();
        let mut i: usize = 0;
        while i < n
            invariant
                y_true@.valid(),
                y_est@.valid(),
                n == y_est@.nums.len(),
                n == y_true@.nums.len(),
                dt == y_true@.den,
                de == y_est@.den,
                cden == dt as int * (n as int),
                0 <= i <= n,
                terms@.map_values(|x: Term| x@) == bce_terms(y_true@, y_est@, i as int),
            decreases n - i,
        {
            let tn: i128 = y_true.nums[i];
            let pn: i128 = y_est.nums[i];
            proof {
                assert(y_true@.nums[i as int] == tn as int);
                assert(y_est@.nums[i as int] == pn as int);
            }
            if tn == 0 {
                terms.push(term_ln(Frac { num: -(dt - tn), den: cden }, Frac {
                    num: de - pn,
                    den: de,
                }));
            } else if tn == dt {
                terms.push(term_ln(Frac { num: -tn, den: cden }, Frac { num: pn, den: de }));
            } else {
                terms.push(term_ln(Frac { num: -tn, den: cden }, Frac { num: pn, den: de }));
                terms.push(term_ln(Frac { num: -(dt - tn), den: cden }, Frac {
                    num: de - pn,
                    den: de,
                }));
            }
            proof {
                assert(terms@.map_values(|x: Term| x@) =~= bce_terms(
                    y_true@,
                    y_est@,
                    i as int + 1,
                ));
            }
            i += 1;
        }
        let mut l: Vec<Value> = Vec::new();
        l.push(Value { terms });
        proof {
            assert(views_of(l@) =~~= self.loss_spec(y_true@, y_est@));
        }
        l
    }

    fn lf_loss_grad(&self, y_true: &FracVec, y_est: &FracVec) -> (g: Vec<Vec<Value>>) {
        let n: usize = y_est.nums.len();
        let dt: i128 = y_true.den;
        let de: i128 = y_est.den;
        let mut row: Vec<Value> = Vec::new();
        let mut i: usize = 0;
        while i < n
            invariant
                y_true@.valid(),
                y_est@.valid(),
                self.grad_domain(y_true@, y_est@),
                n == y_est@.nums.len(),
                n == y_true@.nums.len(),
                dt == y_true@.den,
                de == y_est@.den,
                0 <= i <= n,
                row@.len() == i,
                forall|j: int|
                    0 <= j < i ==> #[trigger] row@[j]@ == seq![
                        unit_v(bce_grad_rat(y_true@, y_est@, j)),
                    ],
            decreases n - i,
        {
            let tn: i128 = y_true.nums[i];
            let pn: i128 = y_est.nums[i];
            proof {
                assert(y_true@.nums[i as int] == tn as int);
                assert(y_est@.nums[i as int] == pn as int);
            }
            let entry: Frac = if tn == 0 {
                proof {
                    lemma_mul_bound(dt as int - tn as int, de as int, 33554432, 16777216);
                    lemma_mul_bound(dt as int, de as int - pn as int, 16777216, 33554432);
                    lemma_mul_bound(
                        dt as int * (de as int - pn as int),
                        n as int,
                        562949953421312,
                        16777216,
                    );
                    lemma_mul_nonzero(dt as int, de as int - pn as int);
                    lemma_mul_nonzero(dt as int * (de as int - pn as int), n as int);
                }
                Frac::new_signed((dt - tn) * de, (dt * (de - pn)) * (n as i128))
            } else if tn == dt {
                proof {
                    lemma_mul_bound(tn as int, de as int, 16777216, 16777216);
                    lemma_mul_bound(dt as int, pn as int, 16777216, 16777216);
                    lemma_mul_bound(
                        dt as int * pn as int,
                        n as int,
                        281474976710656,
                        16777216,
                    );
                    lemma_mul_nonzero(dt as int, pn as int);
                    lemma_mul_nonzero(dt as int * pn as int, n as int);
                }
                Frac::new_signed(-(tn * de), (dt * pn) * (n as i128))
            } else {
                proof {
                    lemma_mul_bound(tn as int, de as int, 16777216, 16777216);
                    lemma_mul_bound(dt as int, de as int - pn as int, 16777216, 33554432);
                    lemma_mul_bound(
                        tn as int * de as int,
                        dt as int * (de as int - pn as int),
                        281474976710656,
                        562949953421312,
                    );
                    lemma_mul_bound(dt as int - tn as int, de as int, 33554432, 16777216);
                    lemma_mul_bound(dt as int, pn as int, 16777216, 16777216);
                    lemma_mul_bound(
                        (dt as int - tn as int) * de as int,
                        dt as int * pn as int,
                        562949953421312,
                        281474976710656,
                    );
                    lemma_mul_bound(
                        dt as int * pn as int,
                        dt as int * (de as int - pn as int),
                        281474976710656,
                        562949953421312,
                    );
                    lemma_mul_bound(
                        (dt as int * pn as int) * (dt as int * (de as int - pn as int)),
                        n as int,
                        158456325028528675187087900672,
                        16777216,
                    );
                    lemma_mul_nonzero(dt as int, pn as int);
                    lemma_mul_nonzero(dt as int, de as int - pn as int);
                    lemma_mul_nonzero(
                        dt as int * pn as int,
                        dt as int * (de as int - pn as int),
                    );
                    lemma_mul_nonzero(
                        (dt as int * pn as int) * (dt as int * (de as int - pn as int)),
                        n as int,
                    );
                }
                Frac::new_signed(
                    -(tn * de * (dt * (de - pn)) - (dt - tn) * de * (dt * pn)),
                    ((dt * pn) * (dt * (de - pn))) * (n as i128),
                )
            };
            row.push(Value::unit(entry));
            i += 1;
        }
        let mut g: Vec<Vec<Value>> = Vec::new();
        g.push(row);
        proof {
            assert(views_of_rows(g@) =~~= self.grad_spec(y_true@, y_est@));
        }
        g
    }
}

/// Law: where `truth_i` is exactly one, position `i` contributes exactly one
/// logarithm term, `estimate_i`'s logarithm with a coefficient equal to
/// `-1/N` — never a term in `ln(1 - estimate_i)`.
pub proof fn lemma_bce_truth_one_term(t: RatVec, e: RatVec, i: int)
    requires
        t.wf(),
        e.nums.len() >= 1,
        0 <= i < e.nums.len(),
        t.nums[i] == t.den,
    ensures
        bce_terms_at(t, e, i).len() == 1,
        bce_terms_at(t, e, i)[0].shape == TermShape::Ln(bce_est(e, i)),
        rat_eqv(bce_terms_at(t, e, i)[0].coef, Rat { num: -1, den: e.nums.len() as int }),
{
    let n = e.nums.len() as int;
    let c = bce_terms_at(t, e, i)[0].coef;
    assert(c == Rat { num: -t.nums[i], den: t.den * n });
    assert((-t.den) * n == (-1) * (t.den * n)) by (nonlinear_arith);
}

/// Law: where `truth_i` is exactly zero, position `i` contributes exactly
/// one logarithm term, the logarithm of `1 - estimate_i` with a coefficient
/// equal to `-1/N` — never a term in `ln(estimate_i)`.
pub proof fn lemma_bce_truth_zero_term(t: RatVec, e: RatVec, i: int)
    requires
        t.wf(),
        e.nums.len() >= 1,
        0 <= i < e.nums.len(),
        t.nums[i] == 0,
    ensures
        bce_terms_at(t, e, i).len() == 1,
        bce_terms_at(t, e, i)[0].shape == TermShape::Ln(bce_co_est(e, i)),
        rat_eqv(bce_terms_at(t, e, i)[0].coef, Rat { num: -1, den: e.nums.len() as int }),
{
    let n = e.nums.len() as int;
    let c = bce_terms_at(t, e, i)[0].coef;
    assert(c == Rat { num: -(t.den - t.nums[i]), den: t.den * n });
    assert((-t.den) * n == (-1) * (t.den * n)) by (nonlinear_arith);
}

} // verus!
