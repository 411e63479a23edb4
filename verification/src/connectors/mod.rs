//! The connectors code generation knows about.
pub mod registry;
