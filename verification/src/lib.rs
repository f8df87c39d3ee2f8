//! Boosting algorithms that maximize the margin of a weighted vote.
//!
//! A booster combines the hypotheses of a weak learner, round by round, into
//! a weighted vote. It keeps a probability distribution over the training
//! examples, asks the weak learner for a hypothesis that does well under
//! that distribution, and has a mathematical program recompute the
//! distribution so that the hypotheses seen so far do as badly as they can.
//! Two bounds on the optimal edge, one from above and one from below, tell
//! when the vote is within a tolerance of the best.
//!
//! All real quantities are fixed-point numbers: an `i64` that counts units
//! of `1 / SCALE`, see [`common::fixed`]. What floating point has to
//! compute, the logarithm behind the regularization parameter and the
//! entropy of a distribution, is handed in by the caller and checked.
//!
//! - [`booster::lpboost`] holds the plain column-generation booster,
//!   [`booster::erlpboost`] the entropy-regularized one, and
//!   [`booster::gbm`] the bookkeeping of the gradient boosting machine.
//! - [`optimizer`] states what a booster asks of the solver of its program,
//!   [`weak_learner`] and [`hypothesis`] what it asks of the weak learner
//!   and its hypotheses; [`hypothesis`] also holds the weighted vote.
//! - [`sample`] holds the training sample, and [`research`] the logger that
//!   follows a run.

pub mod booster;
pub mod common;
pub mod hypothesis;
pub mod optimizer;
pub mod research;
pub mod sample;
pub mod weak_learner;
