//! Square-error loss, one channel per class.
//!
//! For truth and estimate of one length `N`, channel `i` is
//! `(estimate_i - truth_i)^2` and the gradient matrix is diagonal with
//! `2 * (estimate_i - truth_i)` on the diagonal.

use crate::loss_function::{diff_num, pair_den, views_of, views_of_rows, LossFunction};
use crate::rational::{lemma_mul_bound, rat_zero, Frac, FracVec, Rat, RatVec};
use crate::value::{diagonal_matrix, unit_v, TermV, Value};
use vstd::prelude::*;

verus! {

#[derive(Clone, Copy, Debug)]
pub struct SquareErrorLoss;

/// Channel `i`: `(e_i - t_i)^2`.
pub open spec fn sqe_loss_rat(t: RatVec, e: RatVec, i: int) -> Rat {
    Rat { num: diff_num(t, e, i) * diff_num(t, e, i), den: pair_den(t, e) * pair_den(t, e) }
}

/// Diagonal gradient entry `i`: `2 * (e_i - t_i)`.
pub open spec fn sqe_grad_rat(t: RatVec, e: RatVec, i: int) -> Rat {
    Rat { num: 2 * diff_num(t, e, i), den: pair_den(t, e) }
}

impl LossFunction for SquareErrorLoss {
    open spec fn wf(&self) -> bool {
        true
    }

    open spec fn truth_len_of(&self, n_est: nat) -> nat {
        n_est
    }

    open spec fn loss_len_of(&self, n_est: nat) -> nat {
        n_est
    }

    open spec fn loss_domain(&self, t: RatVec, e: RatVec) -> bool {
        true
    }

    open spec fn grad_domain(&self, t: RatVec, e: RatVec) -> bool {
        true
    }

    open spec fn loss_spec(&self, t: RatVec, e: RatVec) -> Seq<Seq<TermV>> {
        Seq::new(e.nums.len(), |i: int| seq![unit_v(sqe_loss_rat(t, e, i))])
    }

    open spec fn grad_spec(&self, t: RatVec, e: RatVec) -> Seq<Seq<Seq<TermV>>> {
        Seq::new(
            e.nums.len(),
            |r: int|
                Seq::new(
                    e.nums.len(),
                    |c: int|
                        if r == c {
                            seq![unit_v(sqe_grad_rat(t, e, r))]
                        } else {
                            seq![unit_v(rat_zero())]
                        },
                ),
        )
    }

    fn truth_len_for(&self, n_est: usize) -> (r: usize) {
        n_est
    }

    fn lf_loss(&self, y_true: &FracVec, y_est: &FracVec) -> (l: Vec<Value>) {
        let n: usize = y_est.nums.len();
        let dt: i128 = y_true.den;
        let de: i128 = y_est.den;
        proof {
            lemma_mul_bound(dt as int, de as int, 16777216, 16777216);
        }
        let m: i128 = dt * de;
        proof {
            lemma_mul_bound(m as int, m as int, 281474976710656, 281474976710656);
        }
        let mm: i128 = m * m;
        let mut l: Vec<Value> = Vec::new();
        let mut i: usize = 0;
        while i < n
            invariant
                y_true@.valid(),
                y_est@.valid(),
                n == y_est@.nums.len(),
                n == y_true@.nums.len(),
                dt == y_true@.den,
                de == y_est@.den,
                m == dt * de,
                mm == (dt as int * de as int) * (dt as int * de as int),
                0 <= i <= n,
                l@.len() == i,
                forall|j: int|
                    0 <= j < i ==> #[trigger] l@[j]@ == seq![
                        unit_v(sqe_loss_rat(y_true@, y_est@, j)),
                    ],
            decreases n - i,
        {
            proof {
                lemma_mul_bound(y_est@.nums[i as int], dt as int, 16777216, 16777216);
                lemma_mul_bound(y_true@.nums[i as int], de as int, 16777216, 16777216);
            }
            let a: i128 = y_est.nums[i] * dt;
            let b: i128 = y_true.nums[i] * de;
            let d: i128 = a - b;
            proof {
                lemma_mul_bound(d as int, d as int, 562949953421312, 562949953421312);
            }
            l.push(Value::unit(Frac { num: d * d, den: mm }));
            i += 1;
        }
        proof {
            assert(views_of(l@) =~~= self.loss_spec(y_true@, y_est@));
        }
        l
    }

    fn lf_loss_grad(&self, y_true: &FracVec, y_est: &FracVec) -> (g: Vec<Vec<Value>>) {
        let n: usize = y_est.nums.len();
        let dt: i128 = y_true.den;
        let de: i128 = y_est.den;
        proof {
            lemma_mul_bound(dt as int, de as int, 16777216, 16777216);
        }
        let m: i128 = dt * de;
        let mut diag: Vec<Value> = Vec::new();
        let mut i: usize = 0;
        while i < n
            invariant
                y_true@.valid(),
                y_est@.valid(),
                n == y_est@.nums.len(),
                n == y_true@.nums.len(),
                dt == y_true@.den,
                de == y_est@.den,
                m == dt * de,
                0 <= i <= n,
                diag@.len() == i,
                forall|j: int|
                    0 <= j < i ==> #[trigger] diag@[j]@ == seq![
                        unit_v(sqe_grad_rat(y_true@, y_est@, j)),
                    ],
            decreases n - i,
        {
            proof {
                lemma_mul_bound(y_est@.nums[i as int], dt as int, 16777216, 16777216);
                lemma_mul_bound(y_true@.nums[i as int], de as int, 16777216, 16777216);
            }
            let a: i128 = y_est.nums[i] * dt;
            let b: i128 = y_true.nums[i] * de;
            let d: i128 = a - b;
            diag.push(Value::unit(Frac { num: 2 * d, den: m }));
            i += 1;
        }
        let g = diagonal_matrix(&diag);
        proof {
            assert(views_of_rows(g@) =~~= self.grad_spec(y_true@, y_est@));
        }
        g
    }
}

} // verus!
