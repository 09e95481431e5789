//! Two-parameter interval loss.
//!
//! The truth vector has length `2N`, grouped as `N` pairs `(low_i, high_i)`
//! with `low_i` first; the estimate and the loss have length `N`.  Channel
//! `i` is `0.5 * (|e_i - low_i| + |e_i - high_i| - (high_i - low_i))`: zero
//! when `e_i` lies in `[low_i, high_i]`, growing linearly outside it.  The
//! diagonal gradient entry is `0` inside the interval (boundaries included),
//! `+1` above it and `-1` below it.

use crate::loss_function::{pair_den, views_of, views_of_rows, LossFunction};
use crate::rational::{
    abs_int, lemma_mul_bound, rat_eqv, rat_int, rat_lt, rat_zero, Frac, FracVec, Rat, RatVec,
};
use crate::value::{diagonal_matrix, unit_v, TermV, Value};
use vstd::prelude::*;

verus! {

#[derive(Clone, Copy, Debug)]
pub struct TwoParameterLoss;

/// Numerator of `e_i - low_i` over `pair_den(t, e)`.
pub open spec fn tp_above_low(t: RatVec, e: RatVec, i: int) -> int {
    e.nums[i] * t.den - t.nums[2 * i] * e.den
}

/// Numerator of `e_i - high_i` over `pair_den(t, e)`.
pub open spec fn tp_above_high(t: RatVec, e: RatVec, i: int) -> int {
    e.nums[i] * t.den - t.nums[2 * i + 1] * e.den
}

/// Numerator of `high_i - low_i` over `pair_den(t, e)`.
pub open spec fn tp_width(t: RatVec, e: RatVec, i: int) -> int {
    (t.nums[2 * i + 1] - t.nums[2 * i]) * e.den
}

/// Channel `i`: `0.5 * (|e_i - low_i| + |e_i - high_i| - (high_i - low_i))`.
pub open spec fn tp_loss_rat(t: RatVec, e: RatVec, i: int) -> Rat {
    Rat {
        num: abs_int(tp_above_low(t, e, i)) + abs_int(tp_above_high(t, e, i)) - tp_width(t, e, i),
        den: 2 * pair_den(t, e),
    }
}

/// Diagonal gradient entry `i`: `0` on `[low_i, high_i]`, `+1` above, `-1`
/// below.
pub open spec fn tp_grad_rat(t: RatVec, e: RatVec, i: int) -> Rat {
    if tp_above_low(t, e, i) >= 0 && tp_above_high(t, e, i) <= 0 {
        rat_zero()
    } else if tp_above_high(t, e, i) > 0 {
        rat_int(1)
    } else {
        rat_int(-1)
    }
}

impl LossFunction for TwoParameterLoss {
    open spec fn wf(&self) -> bool {
        true
    }

    open spec fn truth_len_of(&self, n_est: nat) -> nat {
        2 * n_est
    }

    open spec fn loss_len_of(&self, n_est: nat) -> nat {
        n_est
    }

    open spec fn loss_domain(&self, t: RatVec, e: RatVec) -> bool {
        true
    }

    open spec fn grad_domain(&self, t: RatVec, e: RatVec) -> bool {
        true
    }

    open spec fn loss_spec(&self, t: RatVec, e: RatVec) -> Seq<Seq<TermV>> {
        Seq::new(e.nums.len(), |i: int| seq![unit_v(tp_loss_rat(t, e, i))])
    }

    open spec fn grad_spec(&self, t: RatVec, e: RatVec) -> Seq<Seq<Seq<TermV>>> {
        Seq::new(
            e.nums.len(),
            |r: int|
                Seq::new(
                    e.nums.len(),
                    |c: int|
                        if r == c {
                            seq![unit_v(tp_grad_rat(t, e, r))]
                        } else {
                            seq![unit_v(rat_zero())]
                        },
                ),
        )
    }

    fn truth_len_for(&self, n_est: usize) -> (r: usize) {
        2 * n_est
    }

    fn lf_loss(&self, y_true: &FracVec, y_est: &FracVec) -> (l: Vec<Value>) {
        let n: usize = y_est.nums.len();
        let dt: i128 = y_true.den;
        let de: i128 = y_est.den;
        proof {
            lemma_mul_bound(dt as int, de as int, 16777216, 16777216);
        }
        let den: i128 = 2 * (dt * de);
        let mut l: Vec<Value> = Vec::new();
        let mut i: usize = 0;
        while i < n
            invariant
                y_true@.valid(),
                y_est@.valid(),
                n == y_est@.nums.len(),
                y_true@.nums.len() == 2 * n,
                dt == y_true@.den,
                de == y_est@.den,
                den == 2 * (dt as int * de as int),
                0 <= i <= n,
                l@.len() == i,
                forall|j: int|
                    0 <= j < i ==> #[trigger] l@[j]@ == seq![
                        unit_v(tp_loss_rat(y_true@, y_est@, j)),
                    ],
            decreases n - i,
        {
            proof {
                lemma_mul_bound(y_est@.nums[i as int], dt as int, 16777216, 16777216);
                lemma_mul_bound(y_true@.nums[2 * i as int], de as int, 16777216, 16777216);
                lemma_mul_bound(y_true@.nums[2 * i as int + 1], de as int, 16777216, 16777216);
                lemma_mul_bound(
                    y_true@.nums[2 * i as int + 1] - y_true@.nums[2 * i as int],
                    de as int,
                    33554432,
                    16777216,
                );
            }
            let ed: i128 = y_est.nums[i] * dt;
            let a: i128 = ed - y_true.nums[2 * i] * de;
            let b: i128 = ed - y_true.nums[2 * i + 1] * de;
            let c: i128 = (y_true.nums[2 * i + 1] - y_true.nums[2 * i]) * de;
            let aa: i128 = if a < 0 {
                -a
            } else {
                a
            };
            let ab: i128 = if b < 0 {
                -b
            } else {
                b
            };
            l.push(Value::unit(Frac { num: aa + ab - c, den }));
            i += 1;
        }
        proof {
            assert(views_of(l@) =~~= self.loss_spec(y_true@, y_est@));
        }
        l
    }

    fn lf_loss_grad(&self, y_true: &FracVec, y_est: &FracVec) -> (g: Vec<Vec<Value>>) {
        let n: usize = y_est.nums.len();
        let dt: i128 = y_true.den;
        let de: i128 = y_est.den;
        let mut diag: Vec<Value> = Vec::new();
        let mut i: usize = 0;
        while i < n
            invariant
                y_true@.valid(),
                y_est@.valid(),
                n == y_est@.nums.len(),
                y_true@.nums.len() == 2 * n,
                dt == y_true@.den,
                de == y_est@.den,
                0 <= i <= n,
                diag@.len() == i,
                forall|j: int|
                    0 <= j < i ==> #[trigger] diag@[j]@ == seq![
                        unit_v(tp_grad_rat(y_true@, y_est@, j)),
                    ],
            decreases n - i,
        {
            proof {
                lemma_mul_bound(y_est@.nums[i as int], dt as int, 16777216, 16777216);
                lemma_mul_bound(y_true@.nums[2 * i as int], de as int, 16777216, 16777216);
                lemma_mul_bound(y_true@.nums[2 * i as int + 1], de as int, 16777216, 16777216);
            }
            let ed: i128 = y_est.nums[i] * dt;
            let a: i128 = ed - y_true.nums[2 * i] * de;
            let b: i128 = ed - y_true.nums[2 * i + 1] * de;
            let sg: i128 = if a >= 0 && b <= 0 {
                0
            } else if b > 0 {
                1
            } else {
                -1
            };
            diag.push(Value::unit(Frac { num: sg, den: 1 }));
            i += 1;
        }
        let g = diagonal_matrix(&diag);
        proof {
            assert(views_of_rows(g@) =~~= self.grad_spec(y_true@, y_est@));
        }
        g
    }
}

/// Law: for a pair with `low_i <= high_i`, an estimate on or inside the
/// interval gives zero loss and zero gradient; one strictly above gives a
/// strictly positive loss and gradient `+1`; one strictly below gives a
/// strictly positive loss and gradient `-1`.  The comparisons are stated on
/// the shared-denominator numerators: `e_i` relates to `low_i` as
/// `e.nums[i] * t.den` relates to `t.nums[2i] * e.den`.
pub proof fn lemma_two_parameter_interval(t: RatVec, e: RatVec, i: int)
    requires
        t.wf(),
        e.wf(),
        0 <= i < e.nums.len(),
        t.nums.len() == 2 * e.nums.len(),
        t.nums[2 * i] <= t.nums[2 * i + 1],
    ensures
        tp_above_low(t, e, i) >= 0 && tp_above_high(t, e, i) <= 0 ==> rat_eqv(
            tp_loss_rat(t, e, i),
            rat_zero(),
        ) && tp_grad_rat(t, e, i) == rat_zero(),
        tp_above_high(t, e, i) > 0 ==> rat_lt(rat_zero(), tp_loss_rat(t, e, i)) && tp_grad_rat(
            t,
            e,
            i,
        ) == rat_int(1),
        tp_above_low(t, e, i) < 0 ==> rat_lt(rat_zero(), tp_loss_rat(t, e, i)) && tp_grad_rat(
            t,
            e,
            i,
        ) == rat_int(-1),
{
    let a = tp_above_low(t, e, i);
    let b = tp_above_high(t, e, i);
    let c = tp_width(t, e, i);
    assert(a == b + c) by (nonlinear_arith)
        requires
            a == e.nums[i] * t.den - t.nums[2 * i] * e.den,
            b == e.nums[i] * t.den - t.nums[2 * i + 1] * e.den,
            c == (t.nums[2 * i + 1] - t.nums[2 * i]) * e.den,
    ;
    assert(c >= 0) by (nonlinear_arith)
        requires
            c == (t.nums[2 * i + 1] - t.nums[2 * i]) * e.den,
            t.nums[2 * i] <= t.nums[2 * i + 1],
            0 < e.den,
    ;
    if a >= 0 && b <= 0 {
        let lv = tp_loss_rat(t, e, i);
        assert(lv.num == a - b - c);
        assert(lv.num == 0);
        assert(lv.num * rat_zero().den == rat_zero().num * lv.den) by (nonlinear_arith)
            requires
                lv.num == 0,
        ;
        assert(rat_eqv(lv, rat_zero()));
    }
    if b > 0 {
        assert(tp_loss_rat(t, e, i).num == a + b - c);
        assert(a + b - c == 2 * b);
    }
    if a < 0 {
        assert(b < 0);
        assert(tp_loss_rat(t, e, i).num == (-a) + (-b) - c);
        assert((-a) + (-b) - c == -2 * a);
    }
}

} // verus!
