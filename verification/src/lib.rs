//! The core of a pretty-printer for JavaScript and TypeScript, with
//! machine-checked contracts.
//!
//! A run reads a syntax tree, the text it was parsed from and the comments of
//! that text, and builds a document that the printer lays out for a line
//! width. The tree is never changed.
//!
//! - [`span`], [`ast`]: byte ranges, and the arena of nodes with their parent
//!   links.
//! - [`operator`]: operators, precedence classes, and which operators may
//!   share a line without parentheses.
//! - [`parentheses`]: where an expression must be wrapped in parentheses, and
//!   why what is decided is enough for the text to read back as the tree.
//! - [`utils`], [`argument_collector`]: whether an expression is an argument.
//! - [`member_chain`]: the links of a chain of member accesses and calls, and
//!   the layout of the chain.
//! - [`comments`], [`trivia`]: the comment table, and the documents of
//!   comments.
//! - [`document`], [`printer`], [`run`]: the document, its printer, and the
//!   end of a run.
//! - [`context`], [`options`], [`error`]: the state of a run, its options,
//!   and what ends it.
//! - [`write`]: the documents of casts and of variable declarations.
//! - [`lint`], [`declaration`], [`scopes_collector`]: rules and decisions of
//!   other tools that read the same tree.

pub mod argument_collector;
pub mod ast;
pub mod comments;
pub mod context;
pub mod declaration;
pub mod document;
pub mod error;
pub mod lint;
pub mod member_chain;
pub mod member_chain_laws;
pub mod operator;
pub mod options;
pub mod parentheses;
pub mod printer;
pub mod printer_laws;
pub mod run;
pub mod scopes_collector;
pub mod span;
pub mod text;
pub mod trivia;
pub mod utils;
pub mod write;
