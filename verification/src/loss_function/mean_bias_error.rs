//! Mean-bias error.
//!
//! For truth and estimate of one length `N >= 1`, the single loss channel is
//! `mean(estimate_i - truth_i)` and the gradient is the constant `1/N` in
//! every component, whatever the inputs hold.

use crate::loss_function::{diff_num, pair_den, views_of, views_of_rows, LossFunction};
use crate::rational::{lemma_mul_bound, Frac, FracVec, Rat, RatVec};
use crate::value::{unit_v, TermV, Value};
use vstd::prelude::*;

verus! {

#[derive(Clone, Copy, Debug)]
pub struct MeanBiasError;

/// Sum of the first `k` difference numerators.
pub open spec fn mbe_sum(t: RatVec, e: RatVec, k: int) -> int
    decreases k,
{
    if k <= 0 {
        0
    } else {
        mbe_sum(t, e, k - 1) + diff_num(t, e, k - 1)
    }
}

/// The loss channel: `mean(e_i - t_i)` as one exact rational.
pub open spec fn mbe_loss_rat(t: RatVec, e: RatVec) -> Rat {
    Rat { num: mbe_sum(t, e, e.nums.len() as int), den: (e.nums.len() as int) * pair_den(t, e) }
}

/// Every gradient component: `1/N`.
pub open spec fn mbe_grad_rat(e: RatVec) -> Rat {
    Rat { num: 1, den: e.nums.len() as int }
}

impl LossFunction for MeanBiasError {
    open spec fn wf(&self) -> bool {
        true
    }

    open spec fn truth_len_of(&self, n_est: nat) -> nat {
        n_est
    }

    open spec fn loss_len_of(&self, n_est: nat) -> nat {
        1
    }

    open spec fn loss_domain(&self, t: RatVec, e: RatVec) -> bool {
        e.nums.len() >= 1
    }

    open spec fn grad_domain(&self, t: RatVec, e: RatVec) -> bool {
        e.nums.len() >= 1
    }

    open spec fn loss_spec(&self, t: RatVec, e: RatVec) -> Seq<Seq<TermV>> {
        seq![seq![unit_v(mbe_loss_rat(t, e))]]
    }

    open spec fn grad_spec(&self, t: RatVec, e: RatVec) -> Seq<Seq<Seq<TermV>>> {
        seq![Seq::new(e.nums.len(), |i: int| seq![unit_v(mbe_grad_rat(e))])]
    }

    fn truth_len_for(&self, n_est: usize) -> (r: usize) {
        n_est
    }

    fn lf_loss(&self, y_true: &FracVec, y_est: &FracVec) -> (l: Vec<Value>) {
        let n: usize = y_est.nums.len();
        let dt: i128 = y_true.den;
        let de: i128 = y_est.den;
        let mut s: i128 = 0;
        let mut i: usize = 0;
        while i < n
            invariant
                y_true@.valid(),
                y_est@.valid(),
                n == y_est@.nums.len(),
                n == y_true@.nums.len(),
                dt == y_true@.den,
                de == y_est@.den,
                0 <= i <= n,
                s == mbe_sum(y_true@, y_est@, i as int),
                -((i as int) * 562949953421312) <= s <= (i as int) * 562949953421312,
            decreases n - i,
        {
            proof {
                lemma_mul_bound(y_est@.nums[i as int], dt as int, 16777216, 16777216);
                lemma_mul_bound(y_true@.nums[i as int], de as int, 16777216, 16777216);
            }
            let a: i128 = y_est.nums[i] * dt;
            let b: i128 = y_true.nums[i] * de;
            s = s + (a - b);
            i += 1;
        }
        proof {
            lemma_mul_bound(dt as int, de as int, 16777216, 16777216);
        }
        let m: i128 = dt * de;
        proof {
            lemma_mul_bound(n as int, m as int, 16777216, 281474976710656);
        }
        let den: i128 = (n as i128) * m;
        let mut l: Vec<Value> = Vec::new();
        l.push(Value::unit(Frac { num: s, den }));
        proof {
            assert(views_of(l@) =~~= self.loss_spec(y_true@, y_est@));
        }
        l
    }

    fn lf_loss_grad(&self, y_true: &FracVec, y_est: &FracVec) -> (g: Vec<Vec<Value>>) {
        let n: usize = y_est.nums.len();
        let mut row: Vec<Value> = Vec::new();
        let mut i: usize = 0;
        while i < n
            invariant
                y_est@.valid(),
                n == y_est@.nums.len(),
                0 <= i <= n,
                row@.len() == i,
                forall|j: int|
                    0 <= j < i ==> #[trigger] row@[j]@ == seq![unit_v(mbe_grad_rat(y_est@))],
            decreases n - i,
        {
            row.push(Value::unit(Frac { num: 1, den: n as i128 }));
            i += 1;
        }
        let mut g: Vec<Vec<Value>> = Vec::new();
        g.push(row);
        proof {
            assert(views_of_rows(g@) =~~= self.grad_spec(y_true@, y_est@));
        }
        g
    }
}

/// Law: the mean-bias gradient is value-independent — for any two input pairs
/// with one estimate length, every gradient entry is the same `1/N` unit.
pub proof fn lemma_mean_bias_gradient_constant(
    lf: MeanBiasError,
    t1: RatVec,
    e1: RatVec,
    t2: RatVec,
    e2: RatVec,
)
    requires
        e1.nums.len() == e2.nums.len(),
    ensures
        lf.grad_spec(t1, e1) == lf.grad_spec(t2, e2),
        forall|i: int|
            0 <= i < e1.nums.len() ==> #[trigger] lf.grad_spec(t1, e1)[0][i] == seq![
                unit_v(Rat { num: 1, den: e1.nums.len() as int }),
            ],
{
    assert(lf.grad_spec(t1, e1) =~~= lf.grad_spec(t2, e2));
}

} // verus!
