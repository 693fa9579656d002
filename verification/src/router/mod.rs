//! Provider selection by model, policy and cost.

pub mod selector;

pub use selector::{Router, SelectedProvider};
