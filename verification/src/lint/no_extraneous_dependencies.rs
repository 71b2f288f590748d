//! The rule on imports of packages that `package.json` does not declare.

use vstd::prelude::*;
use crate::ast::{Ast, NodeId};
use crate::lint::diagnostic::{Diagnostic, Report};
use crate::span::Span;

verus! {

/// The rule. It has no options and, so far, reports nothing.
#[derive(Clone, Copy, Debug, Default, PartialEq, Eq)]
pub struct NoExtraneousDependencies;

/// The warning of the rule, pointing at `span`.
pub fn no_extraneous_dependencies_diagnostic(span: Span) -> (diagnostic: Diagnostic)
    ensures
        diagnostic.message@ == "Should be an imperative statement about what is wrong"@,
        diagnostic.help@
            == "Should be a command-like statement that tells the user how to fix the issue"@,
        diagnostic.label == span,
{
    Diagnostic {
        message: "Should be an imperative statement about what is wrong".to_owned(),
        help: "Should be a command-like statement that tells the user how to fix the issue".to_owned(),
        label: span,
    }
}

impl NoExtraneousDependencies {
    /// Checks the node `node`: nothing is reported of any node.
    pub fn run(&self, ast: &Ast, node: NodeId) -> (report: Option<Report>)
        ensures
            report is None,
    {
        None
    }
}

} // verus!
