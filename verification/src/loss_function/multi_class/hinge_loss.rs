//! Hinge loss, one channel per class.
//!
//! With margin `z_i = truth_i * estimate_i`, channel `i` is
//! `max(0, 1 - z_i)`; the diagonal gradient entry is `-truth_i` when
//! `z_i <= 1` and `0` otherwise.

use crate::loss_function::{margin_num, pair_den, views_of, views_of_rows, LossFunction};
use crate::rational::{lemma_mul_bound, rat_zero, Frac, FracVec, Rat, RatVec};
use crate::value::{diagonal_matrix, unit_v, TermV, Value};
use vstd::prelude::*;

verus! {

#[derive(Clone, Copy, Debug)]
pub struct HingeLoss;

/// Channel `i`: `1 - z_i` when that is positive, else `0`.
pub open spec fn hinge_loss_term(t: RatVec, e: RatVec, i: int) -> TermV {
    if margin_num(t, e, i) >= pair_den(t, e) {
        unit_v(rat_zero())
    } else {
        unit_v(Rat { num: pair_den(t, e) - margin_num(t, e, i), den: pair_den(t, e) })
    }
}

/// Diagonal gradient entry `i`: `-truth_i` when `z_i <= 1`, else `0`.
pub open spec fn hinge_grad_term(t: RatVec, e: RatVec, i: int) -> TermV {
    if margin_num(t, e, i) <= pair_den(t, e) {
        unit_v(Rat { num: -t.nums[i], den: t.den })
    } else {
        unit_v(rat_zero())
    }
}

impl LossFunction for HingeLoss {
    open spec fn wf(&self) -> bool {
        true
    }

    open spec fn truth_len_of(&self, n_est: nat) -> nat {
        n_est
    }

    open spec fn loss_len_of(&self, n_est: nat) -> nat {
        n_est
    }

    open spec fn loss_domain(&self, t: RatVec, e: RatVec) -> bool {
        true
    }

    open spec fn grad_domain(&self, t: RatVec, e: RatVec) -> bool {
        true
    }

    open spec fn loss_spec(&self, t: RatVec, e: RatVec) -> Seq<Seq<TermV>> {
        Seq::new(e.nums.len(), |i: int| seq![hinge_loss_term(t, e, i)])
    }

    open spec fn grad_spec(&self, t: RatVec, e: RatVec) -> Seq<Seq<Seq<TermV>>> {
        Seq::new(
            e.nums.len(),
            |r: int|
                Seq::new(
                    e.nums.len(),
                    |c: int|
                        if r == c {
                            seq![hinge_grad_term(t, e, r)]
                        } else {
                            seq![unit_v(rat_zero())]
                        },
                ),
        )
    }

    fn truth_len_for(&self, n_est: usize) -> (r: usize) {
        n_est
    }

    fn lf_loss(&self, y_true: &FracVec, y_est: &FracVec) -> (l: Vec<Value>) {
        let n: usize = y_est.nums.len();
        let dt: i128 = y_true.den;
        let de: i128 = y_est.den;
        proof {
            lemma_mul_bound(dt as int, de as int, 16777216, 16777216);
        }
        let zd: i128 = dt * de;
        let mut l: Vec<Value> = Vec::new();
        let mut i: usize = 0;
        while i < n
            invariant
                y_true@.valid(),
                y_est@.valid(),
                n == y_est@.nums.len(),
                n == y_true@.nums.len(),
                dt == y_true@.den,
                de == y_est@.den,
                zd == dt * de,
                -281474976710656 <= zd <= 281474976710656,
                0 <= i <= n,
                l@.len() == i,
                forall|j: int|
                    0 <= j < i ==> #[trigger] l@[j]@ == seq![hinge_loss_term(y_true@, y_est@, j)],
            decreases n - i,
        {
            proof {
                lemma_mul_bound(y_true@.nums[i as int], y_est@.nums[i as int], 16777216, 16777216);
            }
            let zn: i128 = y_true.nums[i] * y_est.nums[i];
            if zn >= zd {
                l.push(Value::unit(Frac { num: 0, den: 1 }));
            } else {
                l.push(Value::unit(Frac { num: zd - zn, den: zd }));
            }
            i += 1;
        }
        proof {
            assert(views_of(l@) =~~= self.loss_spec(y_true@, y_est@));
        }
        l
    }

    fn lf_loss_grad(&self, y_true: &FracVec, y_est: &FracVec) -> (g: Vec<Vec<Value>>) {
        let n: usize = y_est.nums.len();
        let dt: i128 = y_true.den;
        let de: i128 = y_est.den;
        proof {
            lemma_mul_bound(dt as int, de as int, 16777216, 16777216);
        }
        let zd: i128 = dt * de;
        let mut diag: Vec<Value> = Vec::new();
        let mut i: usize = 0;
        while i < n
            invariant
                y_true@.valid(),
                y_est@.valid(),
                n == y_est@.nums.len(),
                n == y_true@.nums.len(),
                dt == y_true@.den,
                de == y_est@.den,
                zd == dt * de,
                -281474976710656 <= zd <= 281474976710656,
                0 <= i <= n,
                diag@.len() == i,
                forall|j: int|
                    0 <= j < i ==> #[trigger] diag@[j]@ == seq![hinge_grad_term(y_true@, y_est@, j)],
            decreases n - i,
        {
            proof {
                lemma_mul_bound(y_true@.nums[i as int], y_est@.nums[i as int], 16777216, 16777216);
            }
            let zn: i128 = y_true.nums[i] * y_est.nums[i];
            if zn <= zd {
                diag.push(Value::unit(Frac { num: -y_true.nums[i], den: dt }));
            } else {
                diag.push(Value::unit(Frac { num: 0, den: 1 }));
            }
            i += 1;
        }
        let g = diagonal_matrix(&diag);
        proof {
            assert(views_of_rows(g@) =~~= self.grad_spec(y_true@, y_est@));
        }
        g
    }
}

} // verus!
