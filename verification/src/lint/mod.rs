//! Lint rules that share the syntax-tree model of the formatter.

pub mod diagnostic;
pub mod eqeqeq;
pub mod no_conditional_expect;
pub mod no_extraneous_dependencies;
pub mod regex;
