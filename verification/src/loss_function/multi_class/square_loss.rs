//! Square (hinge-family) loss, one channel per class.
//!
//! With margin `z_i = truth_i * estimate_i`, channel `i` is `(1 - z_i)^2`;
//! the diagonal gradient entry is `-2 * truth_i * (1 - z_i)`.

use crate::loss_function::{margin_num, pair_den, views_of, views_of_rows, LossFunction};
use crate::rational::{lemma_mul_bound, rat_zero, Frac, FracVec, Rat, RatVec};
use crate::value::{diagonal_matrix, unit_v, TermV, Value};
use vstd::prelude::*;

verus! {

#[derive(Clone, Copy, Debug)]
pub struct SquareLoss;

/// Numerator of `1 - z_i` over `pair_den(t, e)`.
pub open spec fn one_minus_margin(t: RatVec, e: RatVec, i: int) -> int {
    pair_den(t, e) - margin_num(t, e, i)
}

/// Channel `i`: `(1 - z_i)^2`.
pub open spec fn square_loss_rat(t: RatVec, e: RatVec, i: int) -> Rat {
    Rat {
        num: one_minus_margin(t, e, i) * one_minus_margin(t, e, i),
        den: pair_den(t, e) * pair_den(t, e),
    }
}

/// Diagonal gradient entry `i`: `-2 * truth_i * (1 - z_i)`.
pub open spec fn square_grad_rat(t: RatVec, e: RatVec, i: int) -> Rat {
    Rat { num: -2 * (t.nums[i] * one_minus_margin(t, e, i)), den: t.den * pair_den(t, e) }
}

impl LossFunction for SquareLoss {
    open spec fn wf(&self) -> bool {
        true
    }

    open spec fn truth_len_of(&self, n_est: nat) -> nat {
        n_est
    }

    open spec fn loss_len_of(&self, n_est: nat) -> nat {
        n_est
    }

    open spec fn loss_domain(&self, t: RatVec, e: RatVec) -> bool {
        true
    }

    open spec fn grad_domain(&self, t: RatVec, e: RatVec) -> bool {
        true
    }

    open spec fn loss_spec(&self, t: RatVec, e: RatVec) -> Seq<Seq<TermV>> {
        Seq::new(e.nums.len(), |i: int| seq![unit_v(square_loss_rat(t, e, i))])
    }

    open spec fn grad_spec(&self, t: RatVec, e: RatVec) -> Seq<Seq<Seq<TermV>>> {
        Seq::new(
            e.nums.len(),
            |r: int|
                Seq::new(
                    e.nums.len(),
                    |c: int|
                        if r == c {
                            seq![unit_v(square_grad_rat(t, e, r))]
                        } else {
                            seq![unit_v(rat_zero())]
                        },
                ),
        )
    }

    fn truth_len_for(&self, n_est: usize) -> (r: usize) {
        n_est
    }

    fn lf_loss(&self, y_true: &FracVec, y_est: &FracVec) -> (l: Vec<Value>) {
        let n: usize = y_est.nums.len();
        let dt: i128 = y_true.den;
        let de: i128 = y_est.den;
        proof {
            lemma_mul_bound(dt as int, de as int, 16777216, 16777216);
        }
        let zd: i128 = dt * de;
        proof {
            lemma_mul_bound(zd as int, zd as int, 281474976710656, 281474976710656);
        }
        let zdd: i128 = zd * zd;
        let mut l: Vec<Value> = Vec::new();
        let mut i: usize = 0;
        while i < n
            invariant
                y_true@.valid(),
                y_est@.valid(),
                n == y_est@.nums.len(),
                n == y_true@.nums.len(),
                dt == y_true@.den,
                de == y_est@.den,
                zd == dt * de,
                -281474976710656 <= zd <= 281474976710656,
                zdd == (dt as int * de as int) * (dt as int * de as int),
                0 <= i <= n,
                l@.len() == i,
                forall|j: int|
                    0 <= j < i ==> #[trigger] l@[j]@ == seq![
                        unit_v(square_loss_rat(y_true@, y_est@, j)),
                    ],
            decreases n - i,
        {
            proof {
                lemma_mul_bound(y_true@.nums[i as int], y_est@.nums[i as int], 16777216, 16777216);
            }
            let zn: i128 = y_true.nums[i] * y_est.nums[i];
            let u: i128 = zd - zn;
            proof {
                lemma_mul_bound(u as int, u as int, 562949953421312, 562949953421312);
            }
            l.push(Value::unit(Frac { num: u * u, den: zdd }));
            i += 1;
        }
        proof {
            assert(views_of(l@) =~~= self.loss_spec(y_true@, y_est@));
        }
        l
    }

    fn lf_loss_grad(&self, y_true: &FracVec, y_est: &FracVec) -> (g: Vec<Vec<Value>>) {
        let n: usize = y_est.nums.len();
        let dt: i128 = y_true.den;
        let de: i128 = y_est.den;
        proof {
            lemma_mul_bound(dt as int, de as int, 16777216, 16777216);
        }
        let zd: i128 = dt * de;
        proof {
            lemma_mul_bound(dt as int, zd as int, 16777216, 281474976710656);
        }
        let dd: i128 = dt * zd;
        let mut diag: Vec<Value> = Vec::new();
        let mut i: usize = 0;
        while i < n
            invariant
                y_true@.valid(),
                y_est@.valid(),
                n == y_est@.nums.len(),
                n == y_true@.nums.len(),
                dt == y_true@.den,
                de == y_est@.den,
                zd == dt * de,
                -281474976710656 <= zd <= 281474976710656,
                dd == dt as int * (dt as int * de as int),
                0 <= i <= n,
                diag@.len() == i,
                forall|j: int|
                    0 <= j < i ==> #[trigger] diag@[j]@ == seq![
                        unit_v(square_grad_rat(y_true@, y_est@, j)),
                    ],
            decreases n - i,
        {
            proof {
                lemma_mul_bound(y_true@.nums[i as int], y_est@.nums[i as int], 16777216, 16777216);
            }
            let zn: i128 = y_true.nums[i] * y_est.nums[i];
            let u: i128 = zd - zn;
            proof {
                lemma_mul_bound(y_true@.nums[i as int], u as int, 16777216, 562949953421312);
            }
            let tu: i128 = y_true.nums[i] * u;
            diag.push(Value::unit(Frac { num: -2 * tu, den: dd }));
            i += 1;
        }
        let g = diagonal_matrix(&diag);
        proof {
            assert(views_of_rows(g@) =~~= self.grad_spec(y_true@, y_est@));
        }
        g
    }
}

} // verus!
