//! Helpers for code generation.
pub mod naming;
