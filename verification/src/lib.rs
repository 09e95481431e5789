//! Supervised-learning loss functions over exact arithmetic.
//!
//! Every formula maps a ground-truth vector and an estimate vector to a loss
//! vector and to the gradient of that loss vector with respect to the
//! estimate, through one shared contract.  Inputs are given in scaled-integer
//! form — integer numerators over one positive denominator — and every result
//! is an exact symbolic sum of terms: rational terms, and logarithm,
//! exponential and power terms with rational coefficients and arguments.
//! Turning the transcendental terms into numbers is the caller's business;
//! the formulas themselves are pure and exact, and each carries a contract
//! pinning its full result down.

pub mod loss_function;
pub mod rational;
pub mod value;

pub use loss_function::binary_cross_entropy_loss::BinaryCrossEntropyLoss;
pub use loss_function::mean_absolute_error::MeanAbsoluteError;
pub use loss_function::mean_bias_error::MeanBiasError;
pub use loss_function::mean_square_error::MeanSquareError;
pub use loss_function::multi_class::exponential_loss::ExponentialLoss;
pub use loss_function::multi_class::generalized_smooth_hinge_loss::GeneralizedSmoothHingeLoss;
pub use loss_function::multi_class::hinge_loss::HingeLoss;
pub use loss_function::multi_class::square_loss::SquareLoss;
pub use loss_function::one_zero_loss::OneZeroLoss;
pub use loss_function::square_error_loss::SquareErrorLoss;
pub use loss_function::two_parameter_loss::TwoParameterLoss;
pub use loss_function::LossFunction;
