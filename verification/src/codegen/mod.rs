//! What the generated dataflow code is made of, decided from the IR: the
//! imports, the record types and streams of sources and sinks, and the
//! operator chain of each plan. Each decision is a plain value that a
//! renderer turns into Rust tokens.
pub mod options;
pub mod imports;
pub mod sources;
pub mod sinks;
pub mod plan;
pub mod program;
