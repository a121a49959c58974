//! Analysis of the template before code generation.
pub mod scope;
pub mod scope_walk;
