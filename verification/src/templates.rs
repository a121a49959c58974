//! Optimisations of the template tree.
pub mod ast_optimizer;
