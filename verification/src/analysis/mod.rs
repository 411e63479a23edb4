//! Analyses of programs that code generation relies on: the connectors in
//! use, the subqueries and the order they can run in, and the column schema
//! of each plan node.
pub mod connector_scanner;
pub mod graph;
pub mod subquery_detector;
pub mod dependency_graph;
pub mod schema_tracker;
