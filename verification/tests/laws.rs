//! Concrete checks of the library's stated laws: the cross-entropy boundary
//! cases, the constant mean-bias gradient, the zero one-zero gradient, the
//! smooth-hinge branch agreement at its seams, the interval loss inside and
//! outside its interval, and the rejection of mismatched shapes.

use loss_functions::loss_function::{try_loss, try_loss_grad};
use loss_functions::rational::{frac_eq, Frac, FracVec};
use loss_functions::value::Shape;
use loss_functions::{
    BinaryCrossEntropyLoss, GeneralizedSmoothHingeLoss, LossFunction, MeanBiasError, MeanSquareError,
    OneZeroLoss, TwoParameterLoss,
};

fn fv(nums: &[i128], den: i128) -> FracVec {
    FracVec::new(nums.to_vec(), den).expect("vector inside the library's bounds")
}

/// Sum of the coefficients of a value whose terms are all rational, as an
/// unreduced cross-multiplied fraction.
fn unit_total(v: &loss_functions::value::Value) -> (i128, i128) {
    let mut num: i128 = 0;
    let mut den: i128 = 1;
    for term in v.terms.iter() {
        assert!(matches!(term.shape, Shape::Unit), "term is not rational");
        num = num * term.coef.den + term.coef.num * den;
        den *= term.coef.den;
    }
    (num, den)
}

#[test]
fn cross_entropy_truth_one_gives_pure_log() {
    // Truth exactly one: the loss term is -ln(p)/N, never a NaN-producing
    // 0 * ln(1 - p) companion.
    let lf = BinaryCrossEntropyLoss;
    let t = fv(&[1], 1);
    let p = fv(&[3], 10);
    let l = lf.lf_loss(&t, &p);
    assert_eq!(l[0].terms.len(), 1);
    assert!(frac_eq(&l[0].terms[0].coef, &Frac { num: -1, den: 1 }));
    match l[0].terms[0].shape {
        Shape::Ln(arg) => assert!(frac_eq(&arg, &Frac { num: 3, den: 10 })),
        _ => panic!("expected a logarithm term"),
    }
}

#[test]
fn cross_entropy_truth_zero_gives_pure_log() {
    let lf = BinaryCrossEntropyLoss;
    let t = fv(&[0], 1);
    let p = fv(&[3], 10);
    let l = lf.lf_loss(&t, &p);
    assert_eq!(l[0].terms.len(), 1);
    assert!(frac_eq(&l[0].terms[0].coef, &Frac { num: -1, den: 1 }));
    match l[0].terms[0].shape {
        Shape::Ln(arg) => assert!(frac_eq(&arg, &Frac { num: 7, den: 10 })),
        _ => panic!("expected the logarithm of 1 - p"),
    }
}

#[test]
fn mean_bias_gradient_ignores_values() {
    let lf = MeanBiasError;
    let inputs: [([i128; 4], [i128; 4], i128); 3] = [
        ([1, 2, 3, 4], [4, 3, 2, 1], 1),
        ([-7, 0, 7, 12], [3, 3, 3, 3], 2),
        ([0, 0, 0, 0], [0, 0, 0, 0], 5),
    ];
    for (tn, en, den) in inputs.iter() {
        let g = lf.lf_loss_grad(&fv(tn, *den), &fv(en, *den));
        assert_eq!(g.len(), 1);
        for entry in g[0].iter() {
            assert_eq!(entry.terms.len(), 1);
            assert!(frac_eq(&entry.terms[0].coef, &Frac { num: 1, den: 4 }));
        }
    }
}

#[test]
fn one_zero_gradient_is_zero_everywhere() {
    let lf = OneZeroLoss;
    let g = lf.lf_loss_grad(&fv(&[3, -1, 9], 2), &fv(&[3, 5, -4], 2));
    for row in g.iter() {
        for entry in row.iter() {
            assert_eq!(entry.terms.len(), 1);
            assert!(matches!(entry.terms[0].shape, Shape::Unit));
            assert_eq!(entry.terms[0].coef.num, 0);
        }
    }
}

#[test]
fn smooth_hinge_branches_agree_at_seams() {
    let lf = GeneralizedSmoothHingeLoss::new(Frac { num: 1, den: 2 });
    // At z = 1 the middle-branch formulas collapse to rational terms whose
    // sum is the upper branch's zero.
    let one = Frac { num: 1, den: 1 };
    let (num, _den) = unit_total(&lf.mid_branch_loss(one));
    assert_eq!(num, 0);
    let (gnum, _gden) = unit_total(&lf.mid_branch_grad(one));
    assert_eq!(gnum, 0);
    // At z = 0 they collapse to the lower branch's values: alpha/(alpha+1)
    // for the loss and -1 for the gradient.
    let zero = Frac { num: 0, den: 1 };
    let (num0, den0) = unit_total(&lf.mid_branch_loss(zero));
    let low = lf.low_branch_loss(zero);
    assert_eq!(low.terms.len(), 1);
    assert!(frac_eq(&Frac { num: num0, den: den0 }, &low.terms[0].coef));
    assert!(frac_eq(&Frac { num: num0, den: den0 }, &Frac { num: 1, den: 3 }));
    let (gnum0, gden0) = unit_total(&lf.mid_branch_grad(zero));
    assert!(frac_eq(&Frac { num: gnum0, den: gden0 }, &Frac { num: -1, den: 1 }));
}

#[test]
fn interval_loss_inside_and_outside() {
    let lf = TwoParameterLoss;
    // Estimates inside both intervals: zero loss, zero gradient.
    let t = fv(&[9, 10, 18, 20], 10);
    let e = fv(&[10, 20], 10);
    let l = lf.lf_loss(&t, &e);
    for v in l.iter() {
        assert_eq!(v.terms[0].coef.num, 0);
    }
    let g = lf.lf_loss_grad(&t, &e);
    assert_eq!(g[0][0].terms[0].coef.num, 0);
    assert_eq!(g[1][1].terms[0].coef.num, 0);
    // Strictly above the interval: strictly positive loss, gradient +1.
    let above = fv(&[11], 10);
    let single = fv(&[9, 10], 10);
    let la = lf.lf_loss(&single, &above);
    let va = &la[0].terms[0].coef;
    assert!(va.num > 0 && va.den > 0);
    assert!(frac_eq(va, &Frac { num: 1, den: 10 }));
    let ga = lf.lf_loss_grad(&single, &above);
    assert!(frac_eq(&ga[0][0].terms[0].coef, &Frac { num: 1, den: 1 }));
    // Strictly below: strictly positive loss, gradient -1.
    let below = fv(&[5], 10);
    let lb = lf.lf_loss(&single, &below);
    let vb = &lb[0].terms[0].coef;
    assert!(vb.num > 0 && vb.den > 0);
    let gb = lf.lf_loss_grad(&single, &below);
    assert!(frac_eq(&gb[0][0].terms[0].coef, &Frac { num: -1, den: 1 }));
}

#[test]
fn mismatched_shapes_are_rejected() {
    let lf = MeanSquareError;
    let t = fv(&[1, 2, 3], 1);
    let e = fv(&[1, 2], 1);
    assert!(try_loss(&lf, &t, &e).is_none());
    assert!(try_loss_grad(&lf, &t, &e).is_none());
    let ok = fv(&[1, 2], 1);
    assert!(try_loss(&lf, &ok, &e).is_some());
    assert!(try_loss_grad(&lf, &ok, &e).is_some());
    // The interval formula wants a truth twice as long as the estimate.
    let tp = TwoParameterLoss;
    assert!(try_loss(&tp, &fv(&[1, 2, 3], 1), &fv(&[1], 1)).is_none());
    assert!(try_loss(&tp, &fv(&[1, 2], 1), &fv(&[1], 1)).is_some());
    // A vector with a zero or negative denominator is refused at construction.
    assert!(FracVec::new(vec![1, 2], 0).is_none());
    assert!(FracVec::new(vec![1, 2], -3).is_none());
    // So is one with a component out of the library's bounds.
    assert!(FracVec::new(vec![1, 20000000], 1).is_none());
}
