//! One-zero loss, one channel per class.
//!
//! For truth and estimate of one length `N`, channel `i` is `1` when
//! `estimate_i != truth_i` and `0` otherwise.  The gradient is identically
//! zero everywhere: the formula is a non-differentiable reference surrogate.

use crate::loss_function::{diff_num, views_of, views_of_rows, LossFunction};
use crate::rational::{lemma_mul_bound, rat_int, rat_zero, Frac, FracVec, RatVec};
use crate::value::{diagonal_matrix, unit_v, TermV, Value};
use vstd::prelude::*;

verus! {

#[derive(Clone, Copy, Debug)]
pub struct OneZeroLoss;

/// Channel `i`: `1` when the rationals differ, else `0`.
pub open spec fn one_zero_loss_term(t: RatVec, e: RatVec, i: int) -> TermV {
    if diff_num(t, e, i) == 0 {
        unit_v(rat_int(0))
    } else {
        unit_v(rat_int(1))
    }
}

impl LossFunction for OneZeroLoss {
    open spec fn wf(&self) -> bool {
        true
    }

    open spec fn truth_len_of(&self, n_est: nat) -> nat {
        n_est
    }

    open spec fn loss_len_of(&self, n_est: nat) -> nat {
        n_est
    }

    open spec fn loss_domain(&self, t: RatVec, e: RatVec) -> bool {
        true
    }

    open spec fn grad_domain(&self, t: RatVec, e: RatVec) -> bool {
        true
    }

    open spec fn loss_spec(&self, t: RatVec, e: RatVec) -> Seq<Seq<TermV>> {
        Seq::new(e.nums.len(), |i: int| seq![one_zero_loss_term(t, e, i)])
    }

    open spec fn grad_spec(&self, t: RatVec, e: RatVec) -> Seq<Seq<Seq<TermV>>> {
        Seq::new(e.nums.len(), |r: int| Seq::new(e.nums.len(), |c: int| seq![unit_v(rat_zero())]))
    }

    fn truth_len_for(&self, n_est: usize) -> (r: usize) {
        n_est
    }

    fn lf_loss(&self, y_true: &FracVec, y_est: &FracVec) -> (l: Vec<Value>) {
        let n: usize = y_est.nums.len();
        let dt: i128 = y_true.den;
        let de: i128 = y_est.den;
        let mut l: Vec<Value> = Vec::new();
        let mut i: usize = 0;
        while i < n
            invariant
                y_true@.valid(),
                y_est@.valid(),
                n == y_est@.nums.len(),
                n == y_true@.nums.len(),
                dt == y_true@.den,
                de == y_est@.den,
                0 <= i <= n,
                l@.len() == i,
                forall|j: int|
                    0 <= j < i ==> #[trigger] l@[j]@ == seq![one_zero_loss_term(y_true@, y_est@, j)],
            decreases n - i,
        {
            proof {
                lemma_mul_bound(y_est@.nums[i as int], dt as int, 16777216, 16777216);
                lemma_mul_bound(y_true@.nums[i as int], de as int, 16777216, 16777216);
            }
            let a: i128 = y_est.nums[i] * dt;
            let b: i128 = y_true.nums[i] * de;
            if a == b {
                l.push(Value::unit(Frac { num: 0, den: 1 }));
            } else {
                l.push(Value::unit(Frac { num: 1, den: 1 }));
            }
            i += 1;
        }
        proof {
            assert(views_of(l@) =~~= self.loss_spec(y_true@, y_est@));
        }
        l
    }

    fn lf_loss_grad(&self, y_true: &FracVec, y_est: &FracVec) -> (g: Vec<Vec<Value>>) {
        let n: usize = y_est.nums.len();
        let mut diag: Vec<Value> = Vec::new();
        let mut i: usize = 0;
        while i < n
            invariant
                0 <= i <= n,
                diag@.len() == i,
                forall|j: int| 0 <= j < i ==> #[trigger] diag@[j]@ == seq![unit_v(rat_zero())],
            decreases n - i,
        {
            diag.push(Value::zero());
            i += 1;
        }
        let g = diagonal_matrix(&diag);
        proof {
            assert(views_of_rows(g@) =~~= self.grad_spec(y_true@, y_est@));
        }
        g
    }
}

/// Law: the one-zero gradient is exactly zero in every entry, for all inputs.
pub proof fn lemma_one_zero_gradient_zero(lf: OneZeroLoss, t: RatVec, e: RatVec, r: int, c: int)
    requires
        0 <= r < e.nums.len(),
        0 <= c < e.nums.len(),
    ensures
        lf.grad_spec(t, e)[r][c] == seq![unit_v(rat_zero())],
{
}

} // verus!
