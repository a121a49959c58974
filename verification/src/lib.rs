//! A Vue single-file-component compiler: template parsing, AST optimisation,
//! scope analysis and render-function code generation.

pub mod analyzer;
pub mod case;
pub mod compiler;
pub mod parser;
pub mod templates;
pub mod text;
pub mod transform;
