//! Analytic-versus-numeric gradient agreement: for every formula, the
//! analytic gradient is compared with a central-difference estimate of the
//! loss, evaluated in floating point, at sample points spanning each
//! formula's piecewise regions.

use loss_functions::rational::{Frac, FracVec};
use loss_functions::value::{Shape, Value};
use loss_functions::{
    BinaryCrossEntropyLoss, ExponentialLoss, GeneralizedSmoothHingeLoss, HingeLoss, LossFunction,
    MeanAbsoluteError, MeanBiasError, MeanSquareError, SquareErrorLoss, SquareLoss,
    TwoParameterLoss,
};

fn fv(nums: &[i128], den: i128) -> FracVec {
    FracVec::new(nums.to_vec(), den).expect("vector inside the library's bounds")
}

fn frac_val(f: &Frac) -> f64 {
    f.num as f64 / f.den as f64
}

/// Numeric evaluation of an exact value; a logarithm of a non-positive
/// argument yields whatever floating point yields, as the formulas document.
fn eval(v: &Value) -> f64 {
    let mut total = 0.0f64;
    for term in v.terms.iter() {
        let c = frac_val(&term.coef);
        total += match term.shape {
            Shape::Unit => c,
            Shape::Ln(arg) => c * frac_val(&arg).ln(),
            Shape::Exp(arg) => c * frac_val(&arg).exp(),
            Shape::Pow { base, expo } => c * frac_val(&base).powf(frac_val(&expo)),
        };
    }
    total
}

/// Central-difference check of gradient channel `chan` with respect to
/// estimate component `comp`.
fn check_gradient<L: LossFunction>(
    lf: &L,
    t_nums: &[i128],
    t_den: i128,
    e_nums: &[i128],
    e_den: i128,
    chan: usize,
    comp: usize,
) {
    let t = fv(t_nums, t_den);
    let e = fv(e_nums, e_den);
    let analytic = eval(&lf.lf_loss_grad(&t, &e)[chan][comp]);
    let scale: i128 = 1000;
    let mut up: Vec<i128> = e_nums.iter().map(|x| x * scale).collect();
    let mut down = up.clone();
    up[comp] += 1;
    down[comp] -= 1;
    let h = 1.0 / ((e_den * scale) as f64);
    let lp = eval(&lf.lf_loss(&t, &fv(&up, e_den * scale))[chan]);
    let lm = eval(&lf.lf_loss(&t, &fv(&down, e_den * scale))[chan]);
    let numeric = (lp - lm) / (2.0 * h);
    assert!(
        (numeric - analytic).abs() < 1e-4,
        "analytic {analytic} vs numeric {numeric}"
    );
}

#[test]
fn numeric_gradient_mean_square_error() {
    for comp in 0..3 {
        check_gradient(&MeanSquareError, &[2, 4, 6], 2, &[3, 5, 1], 2, 0, comp);
    }
}

#[test]
fn numeric_gradient_mean_absolute_error() {
    // Components with differences of either sign, away from the kink at
    // zero difference.
    for comp in 0..3 {
        check_gradient(&MeanAbsoluteError, &[2, 4, 6], 2, &[3, 1, 9], 2, 0, comp);
    }
}

#[test]
fn numeric_gradient_mean_bias_error() {
    for comp in 0..3 {
        check_gradient(&MeanBiasError, &[2, 4, 6], 2, &[3, 5, 1], 2, 0, comp);
    }
}

#[test]
fn numeric_gradient_binary_cross_entropy() {
    // A hard one, a hard zero, and a soft label in between.
    let t = [2i128, 0, 1];
    let e = [9i128, 2, 6];
    for comp in 0..3 {
        check_gradient(&BinaryCrossEntropyLoss, &t, 2, &e, 10, 0, comp);
    }
}

#[test]
fn numeric_gradient_square_error() {
    for comp in 0..3 {
        check_gradient(&SquareErrorLoss, &[2, 4, 6], 2, &[3, 5, 1], 2, comp, comp);
    }
}

#[test]
fn numeric_gradient_hinge_family() {
    // Margins strictly below and strictly above 1 for the kinked hinge.
    let t = [1i128, -1, 1];
    let e = [5i128, -20, 15];
    for comp in 0..3 {
        check_gradient(&HingeLoss, &t, 1, &e, 10, comp, comp);
        check_gradient(&SquareLoss, &t, 1, &e, 10, comp, comp);
        check_gradient(&ExponentialLoss, &t, 1, &e, 10, comp, comp);
    }
}

#[test]
fn numeric_gradient_smooth_hinge() {
    let lf = GeneralizedSmoothHingeLoss::new(Frac { num: 1, den: 2 });
    // Margins in the lower, middle and upper branches; the seams themselves
    // are covered exactly by the branch-agreement laws and their test.
    let t = [1i128, 1, 1];
    let e = [-5i128, 5, 15];
    for comp in 0..3 {
        check_gradient(&lf, &t, 1, &e, 10, comp, comp);
    }
}

#[test]
fn numeric_gradient_two_parameter() {
    // Estimates below, inside and above their intervals, away from the
    // boundaries.
    let t = [9i128, 11, 9, 11, 9, 11];
    let e = [5i128, 10, 15];
    for comp in 0..3 {
        check_gradient(&TwoParameterLoss, &t, 10, &e, 10, comp, comp);
    }
}
