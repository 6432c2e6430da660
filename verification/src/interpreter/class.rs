//! Classes and their instances.
pub mod class;
pub mod instance;
