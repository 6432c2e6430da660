//! Decisions the evaluator makes that do not depend on its values.
pub mod eval_collections;
