//! Code generation of the render function.
pub mod codegen;
pub mod codegen_attributes;
pub mod codegen_directives;
pub mod codegen_elements;
pub mod codegen_script;
pub mod directives;
pub mod gen_spec;
pub mod helper;
pub mod imports;
pub mod scoped;
