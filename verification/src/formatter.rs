//! The formatter: it walks a finished tree and says how its nodes are laid out.

pub mod element;
pub mod for_in_statement;
pub mod node;
pub mod object_expression;
