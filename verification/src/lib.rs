//! A compile-time-checked builder for declarative CI-pipeline documents.
//!
//! A pipeline description (trigger, execution pool, stages, jobs, steps) is
//! assembled through a fluent interface whose legal call order is enforced by
//! the type system: each builder value carries a phantom *phase* parameter,
//! and every operation is only offered in the phases where it is legal.
//! Finalizing renders the composed document into an indented, line-oriented
//! text serialization.

pub mod builder;
pub mod flat;
pub mod laws;
pub mod lines;
pub mod render;
