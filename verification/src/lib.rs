//! Declarative tabular data pipelines.
//!
//! A pipeline is a store of named stages ("pipes"), each of which reads a
//! source table or transforms the output of one or two upstream pipes.
//! Resolving a pipe id walks its upstream references, rejects unknown ids and
//! reference cycles, compiles the computed-column expressions, and yields a
//! plan. The plan is carried over to the columnar engine as a lazy frame;
//! the caller has the engine compute it and reads the result back into a
//! typed table.
pub mod compiled;
pub mod compiler;
pub mod config;
pub mod engine;
pub mod error;
pub mod executor;
pub mod expression;
pub mod pipeline;
pub mod plan;
pub mod registry;
pub mod resolver;
pub mod table;
