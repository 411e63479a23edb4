//! Streaming SQL front end: a verified SQL parser producing a streaming
//! intermediate representation, plus the analyses and naming rules used to
//! turn that representation into dataflow code.
pub mod ir;
pub mod text;
pub mod display;
pub mod builder;
pub mod analysis;
pub mod connectors;
pub mod utils;
pub mod codegen;
pub mod sql;
