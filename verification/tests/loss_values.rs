//! One test per formula: each feeds a representative truth and estimate
//! vector and checks the exact values that the closed forms give.

use loss_functions::rational::{frac_eq, Frac, FracVec};
use loss_functions::value::{value_eq, Shape, Value};
use loss_functions::{
    BinaryCrossEntropyLoss, ExponentialLoss, GeneralizedSmoothHingeLoss, HingeLoss, LossFunction,
    MeanAbsoluteError, MeanBiasError, MeanSquareError, OneZeroLoss, SquareErrorLoss, SquareLoss,
    TwoParameterLoss,
};

fn fv(nums: &[i128], den: i128) -> FracVec {
    FracVec::new(nums.to_vec(), den).expect("vector inside the library's bounds")
}

/// The single rational a one-term value holds.
fn unit_of(v: &Value) -> Frac {
    assert_eq!(v.terms.len(), 1);
    assert!(matches!(v.terms[0].shape, Shape::Unit));
    v.terms[0].coef
}

fn assert_unit_eq(v: &Value, num: i128, den: i128) {
    let got = unit_of(v);
    assert!(frac_eq(&got, &Frac { num, den }), "got {got:?}, wanted {num}/{den}");
}

#[test]
fn mean_square_error_test() {
    let lf = MeanSquareError;
    let t = fv(&[1, 2, 3, 4, 5], 1);
    let e = fv(&[1, 2, 4, 5, 4], 1);
    let l = lf.lf_loss(&t, &e);
    assert_eq!(l.len(), 1);
    assert_unit_eq(&l[0], 3, 5);
    let g = lf.lf_loss_grad(&t, &e);
    assert_eq!(g.len(), 1);
    assert_eq!(g[0].len(), 5);
    let expected: [(i128, i128); 5] = [(0, 5), (0, 5), (2, 5), (2, 5), (-2, 5)];
    for (entry, (num, den)) in g[0].iter().zip(expected.iter()) {
        assert_unit_eq(entry, *num, *den);
    }
}

#[test]
fn mean_absolute_error_test() {
    let lf = MeanAbsoluteError;
    let t = fv(&[1, 2, 3, 4, 5], 1);
    let e = fv(&[1, 2, 4, 5, 4], 1);
    let l = lf.lf_loss(&t, &e);
    assert_eq!(l.len(), 1);
    assert_unit_eq(&l[0], 3, 5);
    let g = lf.lf_loss_grad(&t, &e);
    // The sign of a zero difference is taken as positive.
    let expected: [(i128, i128); 5] = [(1, 5), (1, 5), (1, 5), (1, 5), (-1, 5)];
    for (entry, (num, den)) in g[0].iter().zip(expected.iter()) {
        assert_unit_eq(entry, *num, *den);
    }
}

#[test]
fn mean_bias_error_test() {
    let lf = MeanBiasError;
    let t = fv(&[1, 2, 3, 4, 5], 1);
    let e = fv(&[1, 2, 4, 5, 4], 1);
    let l = lf.lf_loss(&t, &e);
    assert_unit_eq(&l[0], 1, 5);
    let g = lf.lf_loss_grad(&t, &e);
    for entry in g[0].iter() {
        assert_unit_eq(entry, 1, 5);
    }
}

#[test]
fn binary_cross_entropy_loss_test() {
    let lf = BinaryCrossEntropyLoss;
    let t = fv(&[10, 0, 10, 0, 10], 10);
    let e = fv(&[9, 1, 9, 1, 9], 10);
    let l = lf.lf_loss(&t, &e);
    assert_eq!(l.len(), 1);
    // Every position contributes exactly one logarithm of 9/10 with
    // coefficient -1/5: ln(p) under truth one, ln(1 - p) under truth zero.
    assert_eq!(l[0].terms.len(), 5);
    for term in l[0].terms.iter() {
        assert!(frac_eq(&term.coef, &Frac { num: -1, den: 5 }));
        match term.shape {
            Shape::Ln(arg) => assert!(frac_eq(&arg, &Frac { num: 9, den: 10 })),
            _ => panic!("expected a logarithm term"),
        }
    }
    let g = lf.lf_loss_grad(&t, &e);
    let expected: [(i128, i128); 5] = [(-2, 9), (2, 9), (-2, 9), (2, 9), (-2, 9)];
    for (entry, (num, den)) in g[0].iter().zip(expected.iter()) {
        assert_unit_eq(entry, *num, *den);
    }
}

#[test]
fn exponential_loss_test() {
    let lf = ExponentialLoss;
    let t = fv(&[1, -1, 1, 1, -1], 1);
    let e = fv(&[6, -12, 8, 15, -13], 10);
    let l = lf.lf_loss(&t, &e);
    assert_eq!(l.len(), 5);
    let margins: [i128; 5] = [6, 12, 8, 15, 13];
    for (v, zn) in l.iter().zip(margins.iter()) {
        assert_eq!(v.terms.len(), 1);
        assert!(frac_eq(&v.terms[0].coef, &Frac { num: 1, den: 1 }));
        match v.terms[0].shape {
            Shape::Exp(arg) => assert!(frac_eq(&arg, &Frac { num: -zn, den: 10 })),
            _ => panic!("expected an exponential term"),
        }
    }
    let g = lf.lf_loss_grad(&t, &e);
    for (i, row) in g.iter().enumerate() {
        for (j, v) in row.iter().enumerate() {
            if i == j {
                match v.terms[0].shape {
                    Shape::Exp(arg) => {
                        assert!(frac_eq(&arg, &Frac { num: -margins[i], den: 10 }))
                    },
                    _ => panic!("expected an exponential term on the diagonal"),
                }
            } else {
                assert_unit_eq(v, 0, 1);
            }
        }
    }
}

#[test]
fn generalized_smooth_hinge_loss_test() {
    let lf = GeneralizedSmoothHingeLoss::new(Frac { num: 1, den: 2 });
    let t = fv(&[1, -1, 1, 1, -1], 1);
    let e = fv(&[6, -12, 8, 15, -13], 10);
    // Margins: 0.6, 1.2, 0.8, 1.5, 1.3 — positions 1, 3 and 4 sit in the
    // upper branch, positions 0 and 2 in the middle branch.
    let l = lf.lf_loss(&t, &e);
    assert_eq!(l.len(), 5);
    for i in [1usize, 3, 4] {
        assert_unit_eq(&l[i], 0, 1);
    }
    // A middle-branch channel is exactly the middle-branch formula at its
    // margin.
    assert!(value_eq(&l[0], &lf.mid_branch_loss(Frac { num: 6, den: 10 })));
    for (i, zn) in [(0usize, 6i128), (2, 8)] {
        assert_eq!(l[i].terms.len(), 2);
        // z^(alpha+1) / (alpha+1): coefficient 2/3, exponent 3/2.
        assert!(frac_eq(&l[i].terms[0].coef, &Frac { num: 2, den: 3 }));
        match l[i].terms[0].shape {
            Shape::Pow { base, expo } => {
                assert!(frac_eq(&base, &Frac { num: zn, den: 10 }));
                assert!(frac_eq(&expo, &Frac { num: 3, den: 2 }));
            },
            _ => panic!("expected a power term"),
        }
        // alpha / (alpha+1) - z = 1/3 - z.
        assert!(matches!(l[i].terms[1].shape, Shape::Unit));
        assert!(frac_eq(&l[i].terms[1].coef, &Frac { num: 10 - 3 * zn, den: 30 }));
    }
    let g = lf.lf_loss_grad(&t, &e);
    for i in [1usize, 3, 4] {
        assert_unit_eq(&g[i][i], 0, 1);
    }
    for (i, zn) in [(0usize, 6i128), (2, 8)] {
        // z^alpha - 1.
        assert_eq!(g[i][i].terms.len(), 2);
        assert!(frac_eq(&g[i][i].terms[0].coef, &Frac { num: 1, den: 1 }));
        match g[i][i].terms[0].shape {
            Shape::Pow { base, expo } => {
                assert!(frac_eq(&base, &Frac { num: zn, den: 10 }));
                assert!(frac_eq(&expo, &Frac { num: 1, den: 2 }));
            },
            _ => panic!("expected a power term"),
        }
        assert!(frac_eq(&g[i][i].terms[1].coef, &Frac { num: -1, den: 1 }));
    }
}

#[test]
fn hinge_loss_test() {
    let lf = HingeLoss;
    let t = fv(&[1, -1, 1, 1, -1], 1);
    let e = fv(&[6, -12, 8, 15, -13], 10);
    let l = lf.lf_loss(&t, &e);
    let expected: [(i128, i128); 5] = [(4, 10), (0, 1), (2, 10), (0, 1), (0, 1)];
    for (v, (num, den)) in l.iter().zip(expected.iter()) {
        assert_unit_eq(v, *num, *den);
    }
    let g = lf.lf_loss_grad(&t, &e);
    let diag: [(i128, i128); 5] = [(-1, 1), (0, 1), (-1, 1), (0, 1), (0, 1)];
    for (i, (num, den)) in diag.iter().enumerate() {
        assert_unit_eq(&g[i][i], *num, *den);
        for j in 0..5 {
            if j != i {
                assert_unit_eq(&g[i][j], 0, 1);
            }
        }
    }
}

#[test]
fn square_loss_test() {
    let lf = SquareLoss;
    let t = fv(&[1, -1, 1, 1, -1], 1);
    let e = fv(&[6, -12, 8, 15, -13], 10);
    let l = lf.lf_loss(&t, &e);
    // (1 - z)^2 for z = 0.6, 1.2, 0.8, 1.5, 1.3.
    let expected: [(i128, i128); 5] = [(16, 100), (4, 100), (4, 100), (25, 100), (9, 100)];
    for (v, (num, den)) in l.iter().zip(expected.iter()) {
        assert_unit_eq(v, *num, *den);
    }
    let g = lf.lf_loss_grad(&t, &e);
    // -2 t (1 - z).
    let diag: [(i128, i128); 5] = [(-8, 10), (-4, 10), (-4, 10), (10, 10), (-6, 10)];
    for (i, (num, den)) in diag.iter().enumerate() {
        assert_unit_eq(&g[i][i], *num, *den);
    }
}

#[test]
fn one_zero_loss_test() {
    let lf = OneZeroLoss;
    let t = fv(&[1, 2, 3, 4, 5], 1);
    let e = fv(&[1, 2, 4, 5, 4], 1);
    let l = lf.lf_loss(&t, &e);
    let expected: [i128; 5] = [0, 0, 1, 1, 1];
    for (v, num) in l.iter().zip(expected.iter()) {
        assert_unit_eq(v, *num, 1);
    }
    let g = lf.lf_loss_grad(&t, &e);
    for row in g.iter() {
        for v in row.iter() {
            assert_unit_eq(v, 0, 1);
        }
    }
}

#[test]
fn square_error_loss_test() {
    let lf = SquareErrorLoss;
    let t = fv(&[1, 2, 3, 4, 5], 1);
    let e = fv(&[1, 2, 4, 5, 4], 1);
    let l = lf.lf_loss(&t, &e);
    let expected: [i128; 5] = [0, 0, 1, 1, 1];
    for (v, num) in l.iter().zip(expected.iter()) {
        assert_unit_eq(v, *num, 1);
    }
    let g = lf.lf_loss_grad(&t, &e);
    let diag: [i128; 5] = [0, 0, 2, 2, -2];
    for (i, num) in diag.iter().enumerate() {
        assert_unit_eq(&g[i][i], *num, 1);
        for j in 0..5 {
            if j != i {
                assert_unit_eq(&g[i][j], 0, 1);
            }
        }
    }
}

#[test]
fn two_parameter_loss_test() {
    let lf = TwoParameterLoss;
    // Pairs (0.9, 1.0), (1.8, 2.0), (1.0, 3.0), (3.5, 4.0), (-1.0, 5.0).
    let t = fv(&[9, 10, 18, 20, 10, 30, 35, 40, -10, 50], 10);
    let e = fv(&[10, 20, 40, 50, 40], 10);
    let l = lf.lf_loss(&t, &e);
    assert_eq!(l.len(), 5);
    let expected: [(i128, i128); 5] = [(0, 1), (0, 1), (1, 1), (1, 1), (0, 1)];
    for (v, (num, den)) in l.iter().zip(expected.iter()) {
        assert_unit_eq(v, *num, *den);
    }
    let g = lf.lf_loss_grad(&t, &e);
    let diag: [i128; 5] = [0, 0, 1, 1, 0];
    for (i, num) in diag.iter().enumerate() {
        assert_unit_eq(&g[i][i], *num, 1);
    }
}
