//! Rules of a value network trainer: batch scheduling, validation, gradient descent, inputs and
//! checkpoints, each with its contract.
pub mod checkpoint;
pub mod clip;
pub mod evaluation;
pub mod feature_pair;
pub mod host_batch;
pub mod numeric;
pub mod run;
pub mod settings;
pub mod sgd;
pub mod shogi_halfkp;
pub mod single;
pub mod steps;
pub mod text;
pub mod validation;
pub mod validation_loader;
pub mod value_loader;
