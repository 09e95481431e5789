//! The shared contract of every loss formula.
//!
//! A formula declares, for an estimate vector of length `n`, the truth length
//! it consumes and the number of loss channels it produces.  `lf_loss` returns
//! one exact symbolic value per channel; `lf_loss_grad` returns the full
//! gradient matrix, one row per channel and one column per estimate
//! component, computed on its own closed-form path and never by differencing
//! the loss.

pub mod binary_cross_entropy_loss;
pub mod mean_absolute_error;
pub mod mean_bias_error;
pub mod mean_square_error;
pub mod multi_class;
pub mod one_zero_loss;
pub mod square_error_loss;
pub mod two_parameter_loss;

use crate::rational::{FracVec, RatVec, LIMIT};
use crate::value::{TermV, Value};
use vstd::prelude::*;

verus! {

/// Numerator of `estimate_i - truth_i` over the denominator `pair_den(t, e)`.
pub open spec fn diff_num(t: RatVec, e: RatVec, i: int) -> int {
    e.nums[i] * t.den - t.nums[i] * e.den
}

/// The common denominator of the component-wise combinations of `t` and `e`.
pub open spec fn pair_den(t: RatVec, e: RatVec) -> int {
    t.den * e.den
}

/// Numerator of the margin `truth_i * estimate_i` over `pair_den(t, e)`.
pub open spec fn margin_num(t: RatVec, e: RatVec, i: int) -> int {
    t.nums[i] * e.nums[i]
}

/// The term sequences denoted by a vector of values.
pub open spec fn views_of(s: Seq<Value>) -> Seq<Seq<TermV>> {
    s.map_values(|v: Value| v@)
}

/// The term sequences denoted by a matrix of values.
pub open spec fn views_of_rows(s: Seq<Vec<Value>>) -> Seq<Seq<Seq<TermV>>> {
    s.map_values(|row: Vec<Value>| views_of(row@))
}

/// A loss formula: a pure pair of maps from (truth, estimate) to the loss
/// vector and to its gradient with respect to the estimate.
pub trait LossFunction: Sized {
    /// Well-formedness of the formula's own parameters.
    spec fn wf(&self) -> bool;

    /// The truth length consumed for an estimate length `n_est`.
    spec fn truth_len_of(&self, n_est: nat) -> nat;

    /// The number of loss channels produced for an estimate length `n_est`.
    spec fn loss_len_of(&self, n_est: nat) -> nat;

    /// The inputs on which the loss is defined in exact arithmetic.
    spec fn loss_domain(&self, t: RatVec, e: RatVec) -> bool;

    /// The inputs on which the gradient is defined in exact arithmetic.
    spec fn grad_domain(&self, t: RatVec, e: RatVec) -> bool;

    /// The exact loss vector: one term sequence per channel.
    spec fn loss_spec(&self, t: RatVec, e: RatVec) -> Seq<Seq<TermV>>;

    /// The exact gradient matrix: one term sequence per channel and estimate
    /// component.
    spec fn grad_spec(&self, t: RatVec, e: RatVec) -> Seq<Seq<Seq<TermV>>>;

    /// The truth length consumed for an estimate of length `n_est`.
    fn truth_len_for(&self, n_est: usize) -> (r: usize)
        requires
            self.wf(),
            n_est <= LIMIT as usize,
        ensures
            r as nat == self.truth_len_of(n_est as nat),
    ;

    /// The loss vector for the given truth and estimate.
    fn lf_loss(&self, y_true: &FracVec, y_est: &FracVec) -> (l: Vec<Value>)
        requires
            self.wf(),
            y_true@.valid(),
            y_est@.valid(),
            y_true@.nums.len() == self.truth_len_of(y_est@.nums.len()),
            self.loss_domain(y_true@, y_est@),
        ensures
            l@.len() == self.loss_len_of(y_est@.nums.len()),
            views_of(l@) == self.loss_spec(y_true@, y_est@),
    ;

    /// The gradient of the loss vector with respect to the estimate.
    fn lf_loss_grad(&self, y_true: &FracVec, y_est: &FracVec) -> (g: Vec<Vec<Value>>)
        requires
            self.wf(),
            y_true@.valid(),
            y_est@.valid(),
            y_true@.nums.len() == self.truth_len_of(y_est@.nums.len()),
            self.grad_domain(y_true@, y_est@),
        ensures
            g@.len() == self.loss_len_of(y_est@.nums.len()),
            forall|r: int| 0 <= r < g@.len() ==> #[trigger] g@[r]@.len() == y_est@.nums.len(),
            views_of_rows(g@) == self.grad_spec(y_true@, y_est@),
    ;
}

/// The loss, after the one runtime check the interface needs: that the truth
/// length is the one the formula declares for this estimate length.  A
/// mismatched pair is rejected here, before any arithmetic runs.  A caller
/// inside this crate discharges the length relation statically through
/// `lf_loss`'s precondition and needs no such check; this entry is the
/// boundary for callers outside it.
pub fn try_loss<L: LossFunction>(lf: &L, y_true: &FracVec, y_est: &FracVec) -> (r: Option<
    Vec<Value>,
>)
    requires
        lf.wf(),
        y_true@.valid(),
        y_est@.valid(),
        lf.loss_domain(y_true@, y_est@),
    ensures
        r is Some <==> y_true@.nums.len() == lf.truth_len_of(y_est@.nums.len()),
        match r {
            Some(l) => {
                &&& l@.len() == lf.loss_len_of(y_est@.nums.len())
                &&& views_of(l@) == lf.loss_spec(y_true@, y_est@)
            },
            None => true,
        },
{
    if lf.truth_len_for(y_est.len()) == y_true.len() {
        Some(lf.lf_loss(y_true, y_est))
    } else {
        None
    }
}

/// The gradient, behind the same length check as `try_loss`.
pub fn try_loss_grad<L: LossFunction>(lf: &L, y_true: &FracVec, y_est: &FracVec) -> (r: Option<
    Vec<Vec<Value>>,
>)
    requires
        lf.wf(),
        y_true@.valid(),
        y_est@.valid(),
        lf.grad_domain(y_true@, y_est@),
    ensures
        r is Some <==> y_true@.nums.len() == lf.truth_len_of(y_est@.nums.len()),
        match r {
            Some(g) => {
                &&& g@.len() == lf.loss_len_of(y_est@.nums.len())
                &&& forall|row: int|
                    0 <= row < g@.len() ==> #[trigger] g@[row]@.len() == y_est@.nums.len()
                &&& views_of_rows(g@) == lf.grad_spec(y_true@, y_est@)
            },
            None => true,
        },
{
    if lf.truth_len_for(y_est.len()) == y_true.len() {
        Some(lf.lf_loss_grad(y_true, y_est))
    } else {
        None
    }
}

} // verus!
