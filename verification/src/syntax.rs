//! The grammar rules.

pub mod binding;
pub mod class;
pub mod expr;
pub mod function;
pub mod js_parse_error;
pub mod module;
pub mod object;
pub mod program;
pub mod stmt;
pub mod typescript;
