//! Building the documents of single constructs from the documents of their
//! parts.

pub mod as_or_satisfies_expression;
pub mod variable_declaration;
