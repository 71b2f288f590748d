//! The syntax tree as the formatter reads it: an arena of nodes, each with
//! its kind, its span, and a link to its syntactic parent.
//!
//! Nodes are added children first, so a child's id is always smaller than its
//! parent's. Parent links are set when the parent is added and never change.

use vstd::prelude::*;
use crate::operator::{BinaryOperator, LogicalOperator, UnaryOperator, UpdateOperator};
use crate::error::InvariantViolation;
use crate::span::Span;

verus! {

/// The index of a node in its arena.
pub type NodeId = usize;

/// What a node is, with the children and flags that decisions read.
/// Children stand in the order in which they are written in source text.
#[allow(inconsistent_fields)]
#[derive(Clone, Debug)]
pub enum NodeKind {
    /// The root of a tree.
    Program { body: Vec<NodeId> },
    /// An expression in statement position.
    ExpressionStatement { expression: NodeId },
    /// `{ ... }`
    BlockStatement { body: Vec<NodeId> },
    /// `if (test) consequent else alternate`
    IfStatement { test: NodeId, consequent: NodeId, alternate: Option<NodeId> },
    /// `for (init; test; update) body`
    ForStatement { init: Option<NodeId>, test: Option<NodeId>, update: Option<NodeId>, body: NodeId },
    /// `for (left in right) body`
    ForInStatement { left: NodeId, right: NodeId, body: NodeId },
    /// `for (left of right) body`, with `await` or without.
    ForOfStatement { is_await: bool, left: NodeId, right: NodeId, body: NodeId },
    /// `while (test) body`
    WhileStatement { test: NodeId, body: NodeId },
    /// `return argument`
    ReturnStatement { argument: Option<NodeId> },
    /// `try block catch handler finally finalizer`
    TryStatement { block: NodeId, handler: Option<NodeId>, finalizer: Option<NodeId> },
    /// The `catch` part of a `try` statement.
    CatchClause { param: Option<NodeId>, body: NodeId },
    /// `switch (discriminant) { cases }`
    SwitchStatement { discriminant: NodeId, cases: Vec<NodeId> },
    /// `kind declarations;`
    VariableDeclaration { kind: VariableDeclarationKind, declarations: Vec<NodeId> },
    /// `id = init`
    VariableDeclarator { id: NodeId, init: Option<NodeId> },
    /// The statements of a function, or the one expression statement of a concise arrow function.
    FunctionBody { statements: Vec<NodeId> },
    /// `export default declaration`
    ExportDefaultDeclaration { declaration: NodeId },
    /// `export declaration`
    ExportNamedDeclaration { declaration: Option<NodeId> },
    /// `@expression`
    Decorator { expression: NodeId },
    /// `...argument`
    SpreadElement { argument: NodeId },
    /// `key: value`
    ObjectProperty { key: NodeId, value: NodeId },
    /// `binding = init` inside a destructuring target.
    AssignmentTargetWithDefault { binding: NodeId, init: NodeId },
    /// `{ a, b }` on the left of an assignment.
    ObjectAssignmentTarget { properties: Vec<NodeId> },
    /// `{...argument}` among the attributes of an element.
    JSXSpreadAttribute { argument: NodeId },
    /// `{...expression}` among the children of an element.
    JSXSpreadChild { expression: NodeId },
    /// The name after the dot of a member access.
    IdentifierName { name: String },
    /// A name that a declaration introduces.
    BindingIdentifier { name: String },
    BooleanLiteral,
    NullLiteral,
    NumericLiteral,
    BigIntLiteral,
    RegExpLiteral,
    StringLiteral,
    /// A template with its interpolated expressions.
    TemplateLiteral { expressions: Vec<NodeId> },
    /// A name that refers to a binding.
    Identifier { name: String },
    MetaProperty,
    Super,
    ThisExpression,
    /// `[elements]`
    ArrayExpression { elements: Vec<NodeId> },
    /// `params => body`; `expression` says that the body is a single expression.
    ArrowFunctionExpression { expression: bool, params: Vec<NodeId>, body: NodeId },
    /// `left = right`
    AssignmentExpression { left: NodeId, right: NodeId },
    /// `await argument`
    AwaitExpression { argument: NodeId },
    /// `left operator right`
    BinaryExpression { operator: BinaryOperator, left: NodeId, right: NodeId },
    /// `callee(arguments)`, or `callee?.(arguments)`
    CallExpression { callee: NodeId, arguments: Vec<NodeId>, optional: bool },
    /// An optional chain, up to where its short circuit ends.
    ChainExpression { expression: NodeId },
    /// A class declaration or class expression.
    Class { is_expression: bool, decorators: Vec<NodeId>, id: Option<NodeId>, super_class: Option<NodeId>, body: Vec<NodeId> },
    /// `test ? consequent : alternate`
    ConditionalExpression { test: NodeId, consequent: NodeId, alternate: NodeId },
    /// A function declaration or function expression.
    Function { is_expression: bool, id: Option<NodeId>, params: Vec<NodeId>, body: Option<NodeId> },
    /// `import(source)`
    ImportExpression { source: NodeId },
    /// `left operator right`
    LogicalExpression { operator: LogicalOperator, left: NodeId, right: NodeId },
    /// `new callee(arguments)`
    NewExpression { callee: NodeId, arguments: Vec<NodeId> },
    /// `{ properties }`
    ObjectExpression { properties: Vec<NodeId> },
    /// `(expression)`, where the parser kept the parentheses.
    ParenthesizedExpression { expression: NodeId },
    /// `a, b, c`
    SequenceExpression { expressions: Vec<NodeId> },
    /// `tag` followed by a template.
    TaggedTemplateExpression { tag: NodeId, quasi: NodeId },
    /// `operator argument`
    UnaryExpression { operator: UnaryOperator, argument: NodeId },
    /// `++argument`, `argument++` and their `--` forms.
    UpdateExpression { operator: UpdateOperator, prefix: bool, argument: NodeId },
    /// `yield argument`
    YieldExpression { argument: Option<NodeId> },
    /// `#left in right`
    PrivateInExpression { left: NodeId, right: NodeId },
    JSXElement { children: Vec<NodeId> },
    JSXFragment { children: Vec<NodeId> },
    /// `expression as type_annotation`
    TSAsExpression { expression: NodeId, type_annotation: NodeId },
    /// `expression satisfies type_annotation`
    TSSatisfiesExpression { expression: NodeId, type_annotation: NodeId },
    /// `<type_annotation>expression`
    TSTypeAssertion { type_annotation: NodeId, expression: NodeId },
    /// `expression!`
    TSNonNullExpression { expression: NodeId },
    /// `expression<T>`
    TSInstantiationExpression { expression: NodeId },
    V8IntrinsicExpression { arguments: Vec<NodeId> },
    /// `object[expression]`, or `object?.[expression]`. `static_name` is
    /// the name of the property where the brackets hold a literal that
    /// spells it: `"catch"` for `p["catch"]`.
    ComputedMemberExpression {
        object: NodeId,
        expression: NodeId,
        optional: bool,
        static_name: Option<String>,
    },
    /// `object.property`, or `object?.property`
    StaticMemberExpression { object: NodeId, property: NodeId, optional: bool },
    /// `object.#field`
    PrivateFieldExpression { object: NodeId, field: NodeId, optional: bool },
    /// A node of which the decisions read only that it opens a scope.
    ScopeOwner { owner: ScopeOwnerKind, children: Vec<NodeId> },
    /// Any node that no decision tells apart from its neighbours.
    Other { children: Vec<NodeId> },
}

/// The nodes that open a scope and take no part in any other decision.
#[derive(Clone, Copy, Debug, PartialEq, Eq, Structural)]
pub enum ScopeOwnerKind {
    /// `static { .. }` in a class
    StaticBlock,
    /// `enum E { .. }`
    TSEnumDeclaration,
    /// `A extends B ? C : D`
    TSConditionalType,
    /// `type T = ..`
    TSTypeAliasDeclaration,
    /// `interface I { .. }`
    TSInterfaceDeclaration,
    /// `m(): T` in an interface or a type literal
    TSMethodSignature,
    /// `new (): T` in an interface or a type literal
    TSConstructSignatureDeclaration,
    /// `namespace N { .. }`, `module "m" { .. }`
    TSModuleDeclaration,
    /// `(a: A) => B` as a type
    TSFunctionType,
    /// `{ [K in T]: U }`
    TSMappedType,
}

impl NodeKind {
    /// `p` holds of every child that the node names.
    pub open spec fn children_satisfy(self, p: spec_fn(NodeId) -> bool) -> bool {
        match self {
            NodeKind::Program { body } => holds_of_all(body@, p),
            NodeKind::ExpressionStatement { expression } => p(expression),
            NodeKind::BlockStatement { body } => holds_of_all(body@, p),
            NodeKind::IfStatement { test, consequent, alternate } => p(test) && p(consequent) && holds_of_option(alternate, p),
            NodeKind::ForStatement { init, test, update, body } => holds_of_option(init, p) && holds_of_option(test, p) && holds_of_option(update, p) && p(body),
            NodeKind::ForInStatement { left, right, body } => p(left) && p(right) && p(body),
            NodeKind::ForOfStatement { left, right, body, .. } => p(left) && p(right) && p(body),
            NodeKind::WhileStatement { test, body } => p(test) && p(body),
            NodeKind::ReturnStatement { argument } => holds_of_option(argument, p),
            NodeKind::TryStatement { block, handler, finalizer } => p(block) && holds_of_option(handler, p) && holds_of_option(finalizer, p),
            NodeKind::CatchClause { param, body } => holds_of_option(param, p) && p(body),
            NodeKind::SwitchStatement { discriminant, cases } => p(discriminant) && holds_of_all(cases@, p),
            NodeKind::VariableDeclaration { declarations, .. } => holds_of_all(declarations@, p),
            NodeKind::VariableDeclarator { id, init } => p(id) && holds_of_option(init, p),
            NodeKind::FunctionBody { statements } => holds_of_all(statements@, p),
            NodeKind::ExportDefaultDeclaration { declaration } => p(declaration),
            NodeKind::ExportNamedDeclaration { declaration } => holds_of_option(declaration, p),
            NodeKind::Decorator { expression } => p(expression),
            NodeKind::SpreadElement { argument } => p(argument),
            NodeKind::ObjectProperty { key, value } => p(key) && p(value),
            NodeKind::AssignmentTargetWithDefault { binding, init } => p(binding) && p(init),
            NodeKind::ObjectAssignmentTarget { properties } => holds_of_all(properties@, p),
            NodeKind::JSXSpreadAttribute { argument } => p(argument),
            NodeKind::JSXSpreadChild { expression } => p(expression),
            NodeKind::TemplateLiteral { expressions } => holds_of_all(expressions@, p),
            NodeKind::ArrayExpression { elements } => holds_of_all(elements@, p),
            NodeKind::ArrowFunctionExpression { params, body, .. } => holds_of_all(params@, p) && p(body),
            NodeKind::AssignmentExpression { left, right } => p(left) && p(right),
            NodeKind::AwaitExpression { argument } => p(argument),
            NodeKind::BinaryExpression { left, right, .. } => p(left) && p(right),
            NodeKind::CallExpression { callee, arguments, .. } => p(callee) && holds_of_all(arguments@, p),
            NodeKind::ChainExpression { expression } => p(expression),
            NodeKind::Class { decorators, id, super_class, body, .. } => holds_of_all(decorators@, p) && holds_of_option(id, p) && holds_of_option(super_class, p) && holds_of_all(body@, p),
            NodeKind::ConditionalExpression { test, consequent, alternate } => p(test) && p(consequent) && p(alternate),
            NodeKind::Function { id, params, body, .. } => holds_of_option(id, p) && holds_of_all(params@, p) && holds_of_option(body, p),
            NodeKind::ImportExpression { source } => p(source),
            NodeKind::LogicalExpression { left, right, .. } => p(left) && p(right),
            NodeKind::NewExpression { callee, arguments } => p(callee) && holds_of_all(arguments@, p),
            NodeKind::ObjectExpression { properties } => holds_of_all(properties@, p),
            NodeKind::ParenthesizedExpression { expression } => p(expression),
            NodeKind::SequenceExpression { expressions } => holds_of_all(expressions@, p),
            NodeKind::TaggedTemplateExpression { tag, quasi } => p(tag) && p(quasi),
            NodeKind::UnaryExpression { argument, .. } => p(argument),
            NodeKind::UpdateExpression { argument, .. } => p(argument),
            NodeKind::YieldExpression { argument } => holds_of_option(argument, p),
            NodeKind::PrivateInExpression { left, right } => p(left) && p(right),
            NodeKind::JSXElement { children } => holds_of_all(children@, p),
            NodeKind::JSXFragment { children } => holds_of_all(children@, p),
            NodeKind::TSAsExpression { expression, type_annotation } => p(expression) && p(type_annotation),
            NodeKind::TSSatisfiesExpression { expression, type_annotation } => p(expression) && p(type_annotation),
            NodeKind::TSTypeAssertion { type_annotation, expression } => p(type_annotation) && p(expression),
            NodeKind::TSNonNullExpression { expression } => p(expression),
            NodeKind::TSInstantiationExpression { expression } => p(expression),
            NodeKind::V8IntrinsicExpression { arguments } => holds_of_all(arguments@, p),
            NodeKind::ComputedMemberExpression { object, expression, .. } => p(object) && p(expression),
            NodeKind::StaticMemberExpression { object, property, .. } => p(object) && p(property),
            NodeKind::PrivateFieldExpression { object, field, .. } => p(object) && p(field),
            NodeKind::ScopeOwner { children, .. } => holds_of_all(children@, p),
            NodeKind::Other { children } => holds_of_all(children@, p),
            _ => true,
        }
    }

    /// The node names `child` among its children.
    pub open spec fn has_child(self, child: NodeId) -> bool {
        !self.children_satisfy(|c: NodeId| c != child)
    }

    /// The children that the node names, in the order of its fields.
    pub open spec fn spec_children(self) -> Seq<NodeId> {
        match self {
            NodeKind::Program { body } => body@,
            NodeKind::ExpressionStatement { expression } => seq![expression],
            NodeKind::BlockStatement { body } => body@,
            NodeKind::IfStatement { test, consequent, alternate } => seq![test] + seq![consequent] + option_seq(alternate),
            NodeKind::ForStatement { init, test, update, body } => option_seq(init) + option_seq(test) + option_seq(update) + seq![body],
            NodeKind::ForInStatement { left, right, body } => seq![left] + seq![right] + seq![body],
            NodeKind::ForOfStatement { left, right, body, .. } => seq![left] + seq![right] + seq![body],
            NodeKind::WhileStatement { test, body } => seq![test] + seq![body],
            NodeKind::ReturnStatement { argument } => option_seq(argument),
            NodeKind::TryStatement { block, handler, finalizer } => seq![block] + option_seq(handler) + option_seq(finalizer),
            NodeKind::CatchClause { param, body } => option_seq(param) + seq![body],
            NodeKind::SwitchStatement { discriminant, cases } => seq![discriminant] + cases@,
            NodeKind::VariableDeclaration { declarations, .. } => declarations@,
            NodeKind::VariableDeclarator { id, init } => seq![id] + option_seq(init),
            NodeKind::FunctionBody { statements } => statements@,
            NodeKind::ExportDefaultDeclaration { declaration } => seq![declaration],
            NodeKind::ExportNamedDeclaration { declaration } => option_seq(declaration),
            NodeKind::Decorator { expression } => seq![expression],
            NodeKind::SpreadElement { argument } => seq![argument],
            NodeKind::ObjectProperty { key, value } => seq![key] + seq![value],
            NodeKind::AssignmentTargetWithDefault { binding, init } => seq![binding] + seq![init],
            NodeKind::ObjectAssignmentTarget { properties } => properties@,
            NodeKind::JSXSpreadAttribute { argument } => seq![argument],
            NodeKind::JSXSpreadChild { expression } => seq![expression],
            NodeKind::TemplateLiteral { expressions } => expressions@,
            NodeKind::ArrayExpression { elements } => elements@,
            NodeKind::ArrowFunctionExpression { params, body, .. } => params@ + seq![body],
            NodeKind::AssignmentExpression { left, right } => seq![left] + seq![right],
            NodeKind::AwaitExpression { argument } => seq![argument],
            NodeKind::BinaryExpression { left, right, .. } => seq![left] + seq![right],
            NodeKind::CallExpression { callee, arguments, .. } => seq![callee] + arguments@,
            NodeKind::ChainExpression { expression } => seq![expression],
            NodeKind::Class { decorators, id, super_class, body, .. } => decorators@ + option_seq(id) + option_seq(super_class) + body@,
            NodeKind::ConditionalExpression { test, consequent, alternate } => seq![test] + seq![consequent] + seq![alternate],
            NodeKind::Function { id, params, body, .. } => option_seq(id) + params@ + option_seq(body),
            NodeKind::ImportExpression { source } => seq![source],
            NodeKind::LogicalExpression { left, right, .. } => seq![left] + seq![right],
            NodeKind::NewExpression { callee, arguments } => seq![callee] + arguments@,
            NodeKind::ObjectExpression { properties } => properties@,
            NodeKind::ParenthesizedExpression { expression } => seq![expression],
            NodeKind::SequenceExpression { expressions } => expressions@,
            NodeKind::TaggedTemplateExpression { tag, quasi } => seq![tag] + seq![quasi],
            NodeKind::UnaryExpression { argument, .. } => seq![argument],
            NodeKind::UpdateExpression { argument, .. } => seq![argument],
            NodeKind::YieldExpression { argument } => option_seq(argument),
            NodeKind::PrivateInExpression { left, right } => seq![left] + seq![right],
            NodeKind::JSXElement { children } => children@,
            NodeKind::JSXFragment { children } => children@,
            NodeKind::TSAsExpression { expression, type_annotation } => seq![expression] + seq![type_annotation],
            NodeKind::TSSatisfiesExpression { expression, type_annotation } => seq![expression] + seq![type_annotation],
            NodeKind::TSTypeAssertion { type_annotation, expression } => seq![type_annotation] + seq![expression],
            NodeKind::TSNonNullExpression { expression } => seq![expression],
            NodeKind::TSInstantiationExpression { expression } => seq![expression],
            NodeKind::V8IntrinsicExpression { arguments } => arguments@,
            NodeKind::ComputedMemberExpression { object, expression, .. } => seq![object] + seq![expression],
            NodeKind::StaticMemberExpression { object, property, .. } => seq![object] + seq![property],
            NodeKind::PrivateFieldExpression { object, field, .. } => seq![object] + seq![field],
            NodeKind::ScopeOwner { children, .. } => children@,
            NodeKind::Other { children } => children@,
            _ => Seq::empty(),
        }
    }

    /// The children that the node names, in the order of its fields.
    pub fn children(&self) -> (kids: Vec<NodeId>)
        ensures
            kids@ == self.spec_children(),
    {
        let mut kids: Vec<NodeId> = Vec::new();
        match self {
            NodeKind::Program { body } => { append(&mut kids, body); },
            NodeKind::ExpressionStatement { expression } => { append_one(&mut kids, *expression); },
            NodeKind::BlockStatement { body } => { append(&mut kids, body); },
            NodeKind::IfStatement { test, consequent, alternate } => {
                append_one(&mut kids, *test);
                append_one(&mut kids, *consequent);
                append_option(&mut kids, alternate);
            },
            NodeKind::ForStatement { init, test, update, body } => {
                append_option(&mut kids, init);
                append_option(&mut kids, test);
                append_option(&mut kids, update);
                append_one(&mut kids, *body);
            },
            NodeKind::ForInStatement { left, right, body } => {
                append_one(&mut kids, *left);
                append_one(&mut kids, *right);
                append_one(&mut kids, *body);
            },
            NodeKind::ForOfStatement { left, right, body, .. } => {
                append_one(&mut kids, *left);
                append_one(&mut kids, *right);
                append_one(&mut kids, *body);
            },
            NodeKind::WhileStatement { test, body } => {
                append_one(&mut kids, *test);
                append_one(&mut kids, *body);
            },
            NodeKind::ReturnStatement { argument } => { append_option(&mut kids, argument); },
            NodeKind::TryStatement { block, handler, finalizer } => {
                append_one(&mut kids, *block);
                append_option(&mut kids, handler);
                append_option(&mut kids, finalizer);
            },
            NodeKind::CatchClause { param, body } => {
                append_option(&mut kids, param);
                append_one(&mut kids, *body);
            },
            NodeKind::SwitchStatement { discriminant, cases } => {
                append_one(&mut kids, *discriminant);
                append(&mut kids, cases);
            },
            NodeKind::VariableDeclaration { declarations, .. } => {
                append(&mut kids, declarations);
            },
            NodeKind::VariableDeclarator { id, init } => {
                append_one(&mut kids, *id);
                append_option(&mut kids, init);
            },
            NodeKind::FunctionBody { statements } => { append(&mut kids, statements); },
            NodeKind::ExportDefaultDeclaration { declaration } => {
                append_one(&mut kids, *declaration);
            },
            NodeKind::ExportNamedDeclaration { declaration } => {
                append_option(&mut kids, declaration);
            },
            NodeKind::Decorator { expression } => { append_one(&mut kids, *expression); },
            NodeKind::SpreadElement { argument } => { append_one(&mut kids, *argument); },
            NodeKind::ObjectProperty { key, value } => {
                append_one(&mut kids, *key);
                append_one(&mut kids, *value);
            },
            NodeKind::AssignmentTargetWithDefault { binding, init } => {
                append_one(&mut kids, *binding);
                append_one(&mut kids, *init);
            },
            NodeKind::ObjectAssignmentTarget { properties } => { append(&mut kids, properties); },
            NodeKind::JSXSpreadAttribute { argument } => { append_one(&mut kids, *argument); },
            NodeKind::JSXSpreadChild { expression } => { append_one(&mut kids, *expression); },
            NodeKind::TemplateLiteral { expressions } => { append(&mut kids, expressions); },
            NodeKind::ArrayExpression { elements } => { append(&mut kids, elements); },
            NodeKind::ArrowFunctionExpression { params, body, .. } => {
                append(&mut kids, params);
                append_one(&mut kids, *body);
            },
            NodeKind::AssignmentExpression { left, right } => {
                append_one(&mut kids, *left);
                append_one(&mut kids, *right);
            },
            NodeKind::AwaitExpression { argument } => { append_one(&mut kids, *argument); },
            NodeKind::BinaryExpression { left, right, .. } => {
                append_one(&mut kids, *left);
                append_one(&mut kids, *right);
            },
            NodeKind::CallExpression { callee, arguments, .. } => {
                append_one(&mut kids, *callee);
                append(&mut kids, arguments);
            },
            NodeKind::ChainExpression { expression } => { append_one(&mut kids, *expression); },
            NodeKind::Class { decorators, id, super_class, body, .. } => {
                append(&mut kids, decorators);
                append_option(&mut kids, id);
                append_option(&mut kids, super_class);
                append(&mut kids, body);
            },
            NodeKind::ConditionalExpression { test, consequent, alternate } => {
                append_one(&mut kids, *test);
                append_one(&mut kids, *consequent);
                append_one(&mut kids, *alternate);
            },
            NodeKind::Function { id, params, body, .. } => {
                append_option(&mut kids, id);
                append(&mut kids, params);
                append_option(&mut kids, body);
            },
            NodeKind::ImportExpression { source } => { append_one(&mut kids, *source); },
            NodeKind::LogicalExpression { left, right, .. } => {
                append_one(&mut kids, *left);
                append_one(&mut kids, *right);
            },
            NodeKind::NewExpression { callee, arguments } => {
                append_one(&mut kids, *callee);
                append(&mut kids, arguments);
            },
            NodeKind::ObjectExpression { properties } => { append(&mut kids, properties); },
            NodeKind::ParenthesizedExpression { expression } => {
                append_one(&mut kids, *expression);
            },
            NodeKind::SequenceExpression { expressions } => { append(&mut kids, expressions); },
            NodeKind::TaggedTemplateExpression { tag, quasi } => {
                append_one(&mut kids, *tag);
                append_one(&mut kids, *quasi);
            },
            NodeKind::UnaryExpression { argument, .. } => { append_one(&mut kids, *argument); },
            NodeKind::UpdateExpression { argument, .. } => { append_one(&mut kids, *argument); },
            NodeKind::YieldExpression { argument } => { append_option(&mut kids, argument); },
            NodeKind::PrivateInExpression { left, right } => {
                append_one(&mut kids, *left);
                append_one(&mut kids, *right);
            },
            NodeKind::JSXElement { children } => { append(&mut kids, children); },
            NodeKind::JSXFragment { children } => { append(&mut kids, children); },
            NodeKind::TSAsExpression { expression, type_annotation } => {
                append_one(&mut kids, *expression);
                append_one(&mut kids, *type_annotation);
            },
            NodeKind::TSSatisfiesExpression { expression, type_annotation } => {
                append_one(&mut kids, *expression);
                append_one(&mut kids, *type_annotation);
            },
            NodeKind::TSTypeAssertion { type_annotation, expression } => {
                append_one(&mut kids, *type_annotation);
                append_one(&mut kids, *expression);
            },
            NodeKind::TSNonNullExpression { expression } => { append_one(&mut kids, *expression); },
            NodeKind::TSInstantiationExpression { expression } => {
                append_one(&mut kids, *expression);
            },
            NodeKind::V8IntrinsicExpression { arguments } => { append(&mut kids, arguments); },
            NodeKind::ComputedMemberExpression { object, expression, .. } => {
                append_one(&mut kids, *object);
                append_one(&mut kids, *expression);
            },
            NodeKind::StaticMemberExpression { object, property, .. } => {
                append_one(&mut kids, *object);
                append_one(&mut kids, *property);
            },
            NodeKind::PrivateFieldExpression { object, field, .. } => {
                append_one(&mut kids, *object);
                append_one(&mut kids, *field);
            },
            NodeKind::ScopeOwner { children, .. } => { append(&mut kids, children); },
            NodeKind::Other { children } => { append(&mut kids, children); },
            _ => {},
        }
        assert(kids@ =~= self.spec_children());
        kids
    }

    /// A property holds of every named child exactly when it holds of every
    /// entry of the list of children.
    pub proof fn lemma_children_listed(self, p: spec_fn(NodeId) -> bool)
        ensures
            self.children_satisfy(p) == holds_of_all(self.spec_children(), p),
    {
        match self {
            NodeKind::Program { body } => {
            },
            NodeKind::ExpressionStatement { expression } => { lemma_holds_of_one(expression, p); },
            NodeKind::BlockStatement { body } => {
            },
            NodeKind::IfStatement { test, consequent, alternate } => {
                lemma_holds_of_one(test, p);
                lemma_holds_of_one(consequent, p);
                lemma_holds_of_option_seq(alternate, p);
                lemma_holds_of_concat(seq![test], seq![consequent], p);
                lemma_holds_of_concat(seq![test] + seq![consequent], option_seq(alternate), p);
            },
            NodeKind::ForStatement { init, test, update, body } => {
                lemma_holds_of_option_seq(init, p);
                lemma_holds_of_option_seq(test, p);
                lemma_holds_of_option_seq(update, p);
                lemma_holds_of_one(body, p);
                lemma_holds_of_concat(option_seq(init), option_seq(test), p);
                lemma_holds_of_concat(option_seq(init) + option_seq(test), option_seq(update), p);
                lemma_holds_of_concat(option_seq(init) + option_seq(test) + option_seq(update), seq![body], p);
            },
            NodeKind::ForInStatement { left, right, body } => {
                lemma_holds_of_one(left, p);
                lemma_holds_of_one(right, p);
                lemma_holds_of_one(body, p);
                lemma_holds_of_concat(seq![left], seq![right], p);
                lemma_holds_of_concat(seq![left] + seq![right], seq![body], p);
            },
            NodeKind::ForOfStatement { left, right, body, .. } => {
                lemma_holds_of_one(left, p);
                lemma_holds_of_one(right, p);
                lemma_holds_of_one(body, p);
                lemma_holds_of_concat(seq![left], seq![right], p);
                lemma_holds_of_concat(seq![left] + seq![right], seq![body], p);
            },
            NodeKind::WhileStatement { test, body } => {
                lemma_holds_of_one(test, p);
                lemma_holds_of_one(body, p);
                lemma_holds_of_concat(seq![test], seq![body], p);
            },
            NodeKind::ReturnStatement { argument } => { lemma_holds_of_option_seq(argument, p); },
            NodeKind::TryStatement { block, handler, finalizer } => {
                lemma_holds_of_one(block, p);
                lemma_holds_of_option_seq(handler, p);
                lemma_holds_of_option_seq(finalizer, p);
                lemma_holds_of_concat(seq![block], option_seq(handler), p);
                lemma_holds_of_concat(seq![block] + option_seq(handler), option_seq(finalizer), p);
            },
            NodeKind::CatchClause { param, body } => {
                lemma_holds_of_option_seq(param, p);
                lemma_holds_of_one(body, p);
                lemma_holds_of_concat(option_seq(param), seq![body], p);
            },
            NodeKind::SwitchStatement { discriminant, cases } => {
                lemma_holds_of_one(discriminant, p);
                lemma_holds_of_concat(seq![discriminant], cases@, p);
            },
            NodeKind::VariableDeclaration { declarations, .. } => {
            },
            NodeKind::VariableDeclarator { id, init } => {
                lemma_holds_of_one(id, p);
                lemma_holds_of_option_seq(init, p);
                lemma_holds_of_concat(seq![id], option_seq(init), p);
            },
            NodeKind::FunctionBody { statements } => {
            },
            NodeKind::ExportDefaultDeclaration { declaration } => {
                lemma_holds_of_one(declaration, p);
            },
            NodeKind::ExportNamedDeclaration { declaration } => {
                lemma_holds_of_option_seq(declaration, p);
            },
            NodeKind::Decorator { expression } => { lemma_holds_of_one(expression, p); },
            NodeKind::SpreadElement { argument } => { lemma_holds_of_one(argument, p); },
            NodeKind::ObjectProperty { key, value } => {
                lemma_holds_of_one(key, p);
                lemma_holds_of_one(value, p);
                lemma_holds_of_concat(seq![key], seq![value], p);
            },
            NodeKind::AssignmentTargetWithDefault { binding, init } => {
                lemma_holds_of_one(binding, p);
                lemma_holds_of_one(init, p);
                lemma_holds_of_concat(seq![binding], seq![init], p);
            },
            NodeKind::ObjectAssignmentTarget { properties } => {
            },
            NodeKind::JSXSpreadAttribute { argument } => { lemma_holds_of_one(argument, p); },
            NodeKind::JSXSpreadChild { expression } => { lemma_holds_of_one(expression, p); },
            NodeKind::TemplateLiteral { expressions } => {
            },
            NodeKind::ArrayExpression { elements } => {
            },
            NodeKind::ArrowFunctionExpression { params, body, .. } => {
                lemma_holds_of_one(body, p);
                lemma_holds_of_concat(params@, seq![body], p);
            },
            NodeKind::AssignmentExpression { left, right } => {
                lemma_holds_of_one(left, p);
                lemma_holds_of_one(right, p);
                lemma_holds_of_concat(seq![left], seq![right], p);
            },
            NodeKind::AwaitExpression { argument } => { lemma_holds_of_one(argument, p); },
            NodeKind::BinaryExpression { left, right, .. } => {
                lemma_holds_of_one(left, p);
                lemma_holds_of_one(right, p);
                lemma_holds_of_concat(seq![left], seq![right], p);
            },
            NodeKind::CallExpression { callee, arguments, .. } => {
                lemma_holds_of_one(callee, p);
                lemma_holds_of_concat(seq![callee], arguments@, p);
            },
            NodeKind::ChainExpression { expression } => { lemma_holds_of_one(expression, p); },
            NodeKind::Class { decorators, id, super_class, body, .. } => {
                lemma_holds_of_option_seq(id, p);
                lemma_holds_of_option_seq(super_class, p);
                lemma_holds_of_concat(decorators@, option_seq(id), p);
                lemma_holds_of_concat(decorators@ + option_seq(id), option_seq(super_class), p);
                lemma_holds_of_concat(decorators@ + option_seq(id) + option_seq(super_class), body@, p);
            },
            NodeKind::ConditionalExpression { test, consequent, alternate } => {
                lemma_holds_of_one(test, p);
                lemma_holds_of_one(consequent, p);
                lemma_holds_of_one(alternate, p);
                lemma_holds_of_concat(seq![test], seq![consequent], p);
                lemma_holds_of_concat(seq![test] + seq![consequent], seq![alternate], p);
            },
            NodeKind::Function { id, params, body, .. } => {
                lemma_holds_of_option_seq(id, p);
                lemma_holds_of_option_seq(body, p);
                lemma_holds_of_concat(option_seq(id), params@, p);
                lemma_holds_of_concat(option_seq(id) + params@, option_seq(body), p);
            },
            NodeKind::ImportExpression { source } => { lemma_holds_of_one(source, p); },
            NodeKind::LogicalExpression { left, right, .. } => {
                lemma_holds_of_one(left, p);
                lemma_holds_of_one(right, p);
                lemma_holds_of_concat(seq![left], seq![right], p);
            },
            NodeKind::NewExpression { callee, arguments } => {
                lemma_holds_of_one(callee, p);
                lemma_holds_of_concat(seq![callee], arguments@, p);
            },
            NodeKind::ObjectExpression { properties } => {
            },
            NodeKind::ParenthesizedExpression { expression } => {
                lemma_holds_of_one(expression, p);
            },
            NodeKind::SequenceExpression { expressions } => {
            },
            NodeKind::TaggedTemplateExpression { tag, quasi } => {
                lemma_holds_of_one(tag, p);
                lemma_holds_of_one(quasi, p);
                lemma_holds_of_concat(seq![tag], seq![quasi], p);
            },
            NodeKind::UnaryExpression { argument, .. } => { lemma_holds_of_one(argument, p); },
            NodeKind::UpdateExpression { argument, .. } => { lemma_holds_of_one(argument, p); },
            NodeKind::YieldExpression { argument } => { lemma_holds_of_option_seq(argument, p); },
            NodeKind::PrivateInExpression { left, right } => {
                lemma_holds_of_one(left, p);
                lemma_holds_of_one(right, p);
                lemma_holds_of_concat(seq![left], seq![right], p);
            },
            NodeKind::JSXElement { children } => {
            },
            NodeKind::JSXFragment { children } => {
            },
            NodeKind::TSAsExpression { expression, type_annotation } => {
                lemma_holds_of_one(expression, p);
                lemma_holds_of_one(type_annotation, p);
                lemma_holds_of_concat(seq![expression], seq![type_annotation], p);
            },
            NodeKind::TSSatisfiesExpression { expression, type_annotation } => {
                lemma_holds_of_one(expression, p);
                lemma_holds_of_one(type_annotation, p);
                lemma_holds_of_concat(seq![expression], seq![type_annotation], p);
            },
            NodeKind::TSTypeAssertion { type_annotation, expression } => {
                lemma_holds_of_one(type_annotation, p);
                lemma_holds_of_one(expression, p);
                lemma_holds_of_concat(seq![type_annotation], seq![expression], p);
            },
            NodeKind::TSNonNullExpression { expression } => { lemma_holds_of_one(expression, p); },
            NodeKind::TSInstantiationExpression { expression } => {
                lemma_holds_of_one(expression, p);
            },
            NodeKind::V8IntrinsicExpression { arguments } => {
            },
            NodeKind::ComputedMemberExpression { object, expression, .. } => {
                lemma_holds_of_one(object, p);
                lemma_holds_of_one(expression, p);
                lemma_holds_of_concat(seq![object], seq![expression], p);
            },
            NodeKind::StaticMemberExpression { object, property, .. } => {
                lemma_holds_of_one(object, p);
                lemma_holds_of_one(property, p);
                lemma_holds_of_concat(seq![object], seq![property], p);
            },
            NodeKind::PrivateFieldExpression { object, field, .. } => {
                lemma_holds_of_one(object, p);
                lemma_holds_of_one(field, p);
                lemma_holds_of_concat(seq![object], seq![field], p);
            },
            NodeKind::ScopeOwner { children, .. } => {
            },
            NodeKind::Other { children } => {
            },
            _ => {},
        }
    }
}

/// How a variable declaration introduces its names.
#[derive(Clone, Copy, Debug, PartialEq, Eq, Structural)]
pub enum VariableDeclarationKind {
    Var,
    Let,
    Const,
    Using,
    AwaitUsing,
}

/// `p` holds of the child, if there is one.
pub open spec fn holds_of_option(child: Option<NodeId>, p: spec_fn(NodeId) -> bool) -> bool {
    child matches Some(c) ==> p(c)
}

/// `p` holds of every child in the list.
pub open spec fn holds_of_all(children: Seq<NodeId>, p: spec_fn(NodeId) -> bool) -> bool {
    forall|k: int| 0 <= k < children.len() ==> p(#[trigger] children[k])
}


/// The list that holds the child, if there is one.
pub open spec fn option_seq(child: Option<NodeId>) -> Seq<NodeId> {
    match child {
        Some(c) => seq![c],
        None => Seq::empty(),
    }
}

/// A property holds of all of a list of one child when it holds of the child.
proof fn lemma_holds_of_one(child: NodeId, p: spec_fn(NodeId) -> bool)
    ensures
        holds_of_all(seq![child], p) == p(child),
{
    assert(seq![child][0] == child);
}

/// A property holds of all of the list of an optional child when it holds of
/// the child, if there is one.
proof fn lemma_holds_of_option_seq(child: Option<NodeId>, p: spec_fn(NodeId) -> bool)
    ensures
        holds_of_all(option_seq(child), p) == holds_of_option(child, p),
{
    if let Some(c) = child {
        assert(option_seq(child)[0] == c);
    }
}

/// A property holds of all of two lists joined when it holds of all of each.
proof fn lemma_holds_of_concat(a: Seq<NodeId>, b: Seq<NodeId>, p: spec_fn(NodeId) -> bool)
    ensures
        holds_of_all(a + b, p) == (holds_of_all(a, p) && holds_of_all(b, p)),
{
    if holds_of_all(a + b, p) {
        assert forall|k: int| 0 <= k < a.len() implies p(#[trigger] a[k]) by {
            assert((a + b)[k] == a[k]);
        }
        assert forall|k: int| 0 <= k < b.len() implies p(#[trigger] b[k]) by {
            assert((a + b)[a.len() + k] == b[k]);
        }
    }
    if holds_of_all(a, p) && holds_of_all(b, p) {
        assert forall|k: int| 0 <= k < (a + b).len() implies p(#[trigger] (a + b)[k]) by {
            if k < a.len() {
                assert((a + b)[k] == a[k]);
            } else {
                assert((a + b)[k] == b[k - a.len()]);
            }
        }
    }
}

/// Adds the children `more` to the end of `kids`.
pub(crate) fn append(kids: &mut Vec<NodeId>, more: &Vec<NodeId>)
    ensures
        final(kids)@ == old(kids)@ + more@,
{
    let mut i: usize = 0;
    while i < more.len()
        invariant
            i <= more.len(),
            kids@ == old(kids)@ + more@.subrange(0, i as int),
        decreases more.len() - i,
    {
        kids.push(more[i]);
        i += 1;
        assert(kids@ =~= old(kids)@ + more@.subrange(0, i as int));
    }
    assert(more@.subrange(0, i as int) =~= more@);
}

/// Adds `child` to the end of `kids`.
pub(crate) fn append_one(kids: &mut Vec<NodeId>, child: NodeId)
    ensures
        final(kids)@ == old(kids)@ + seq![child],
{
    kids.push(child);
    assert(kids@ =~= old(kids)@ + seq![child]);
}

/// Adds `child` to the end of `kids`, if there is one.
pub(crate) fn append_option(kids: &mut Vec<NodeId>, child: &Option<NodeId>)
    ensures
        final(kids)@ == old(kids)@ + option_seq(*child),
{
    if let Some(c) = child {
        kids.push(*c);
        assert(kids@ =~= old(kids)@ + option_seq(*child));
    } else {
        assert(kids@ =~= old(kids)@ + option_seq(*child));
    }
}

/// One node of the arena.
#[derive(Clone, Debug)]
pub struct Node {
    pub kind: NodeKind,
    pub span: Span,
}

/// The arena as contracts see it.
pub ghost struct AstView {
    /// The nodes, by id.
    pub nodes: Seq<Node>,
    /// The parent of each node, by the node's id; `None` for a root.
    pub parents: Seq<Option<NodeId>>,
}

impl AstView {
    /// The number of nodes.
    pub open spec fn len(self) -> nat {
        self.nodes.len()
    }

    /// The kind of a node.
    pub open spec fn kind(self, id: NodeId) -> NodeKind {
        self.nodes[id as int].kind
    }

    /// The span of a node.
    pub open spec fn span(self, id: NodeId) -> Span {
        self.nodes[id as int].span
    }

    /// The parent of a node, `None` for a root. A parent is always a later
    /// node of the arena.
    pub open spec fn parent(self, id: NodeId) -> Option<NodeId> {
        match self.parents[id as int] {
            Some(p) if id < p < self.nodes.len() => Some(p),
            _ => None,
        }
    }

    /// The kind of a node's parent, `None` for a root.
    pub open spec fn parent_kind(self, id: NodeId) -> Option<NodeKind> {
        match self.parent(id) {
            Some(p) => Some(self.kind(p)),
            None => None,
        }
    }

    /// Every span is a range of a text of `len` bytes.
    pub open spec fn fits(self, len: nat) -> bool {
        forall|i: int|
            0 <= i < self.nodes.len() ==> (#[trigger] self.nodes[i]).span.start
                <= self.nodes[i].span.end <= len
    }

    /// No two children of one node share a span, so that a child is told
    /// from its siblings by its span alone.
    pub open spec fn siblings_apart(self) -> bool {
        forall|i: int, a: int, b: int|
            #![trigger self.nodes[i].kind.spec_children()[a], self.nodes[i].kind.spec_children()[b]]
            0 <= i < self.nodes.len() && 0 <= a < b < self.nodes[i].kind.spec_children().len()
                ==> self.span(self.nodes[i].kind.spec_children()[a]) != self.span(
                self.nodes[i].kind.spec_children()[b],
            )
    }

    /// Children come before their parent, carry a link to it, and lie within
    /// its span; a link leads to a later node that names the child.
    pub open spec fn wf(self) -> bool {
        &&& self.parents.len() == self.nodes.len()
        &&& self.nodes.len() <= usize::MAX
        &&& forall|i: int|
            0 <= i < self.nodes.len() ==> (#[trigger] self.nodes[i]).kind.children_satisfy(
                |c: NodeId| self.is_child_of(c, i),
            )
        &&& forall|c: int|
            0 <= c < self.nodes.len() ==> (#[trigger] self.parents[c] matches Some(p) ==> c < p
                < self.nodes.len() && self.nodes[p as int].kind.has_child(c as usize))
    }

    /// `child` is an earlier node than `parent`, is linked to it, and lies
    /// within its span.
    pub open spec fn is_child_of(self, child: NodeId, parent: int) -> bool {
        &&& child < parent
        &&& self.parents[child as int] == Some(parent as usize)
        &&& self.nodes[parent].span.covers(self.nodes[child as int].span)
    }
}

/// The arena that owns every node of one tree.
pub struct Ast {
    nodes: Vec<Node>,
    parents: Vec<Option<NodeId>>,
}

impl View for Ast {
    type V = AstView;

    closed spec fn view(&self) -> AstView {
        AstView { nodes: self.nodes@, parents: self.parents@ }
    }
}

/// What stands in the way of adding a node with these children and this
/// span, if anything.
pub open spec fn add_violation(tree: AstView, kind: NodeKind, span: Span) -> Option<
    InvariantViolation,
> {
    if !kind.children_satisfy(|c: NodeId| c < tree.nodes.len()) {
        Some(InvariantViolation::UnknownChild { span })
    } else if !kind.children_satisfy(|c: NodeId| tree.parents[c as int] is None) {
        Some(InvariantViolation::ChildHasParent { span })
    } else if !kind.children_satisfy(|c: NodeId| span.covers(tree.nodes[c as int].span)) {
        Some(InvariantViolation::SpanContainment { span })
    } else {
        None
    }
}

/// The tree after a node with these children has been added: the node
/// stands last, as a root, and its children are linked to it.
pub open spec fn with_node(tree: AstView, kind: NodeKind, span: Span) -> AstView {
    AstView {
        nodes: tree.nodes.push(Node { kind, span }),
        parents: Seq::new(
            tree.nodes.len() + 1,
            |c: int|
                if c < tree.nodes.len() && kind.has_child(c as usize) {
                    Some(tree.nodes.len() as usize)
                } else if c < tree.nodes.len() {
                    tree.parents[c]
                } else {
                    None
                },
        ),
    }
}

impl Ast {
    /// An arena without nodes.
    pub fn new() -> (ast: Ast)
        ensures
            ast@.wf(),
            ast@.nodes.len() == 0,
    {
        Ast { nodes: Vec::new(), parents: Vec::new() }
    }

    /// The number of nodes.
    pub fn len(&self) -> (n: usize)
        ensures
            n == self@.nodes.len(),
    {
        self.nodes.len()
    }

    /// The kind of a node.
    pub fn kind(&self, id: NodeId) -> (kind: &NodeKind)
        requires
            id < self@.nodes.len(),
        ensures
            *kind == self@.nodes[id as int].kind,
    {
        &self.nodes[id].kind
    }

    /// The span of a node.
    pub fn span(&self, id: NodeId) -> (span: Span)
        requires
            id < self@.nodes.len(),
        ensures
            span == self@.nodes[id as int].span,
    {
        self.nodes[id].span
    }

    /// The parent of a node, `None` for a root.
    pub fn parent(&self, id: NodeId) -> (parent: Option<NodeId>)
        requires
            self@.wf(),
            id < self@.nodes.len(),
        ensures
            parent == self@.parent(id),
            parent matches Some(p) ==> id < p < self@.len(),
    {
        self.parents[id]
    }

    /// The kind of a node's parent, `None` for a root.
    pub fn parent_kind(&self, id: NodeId) -> (kind: Option<&NodeKind>)
        requires
            self@.wf(),
            id < self@.nodes.len(),
        ensures
            match kind {
                Some(k) => self@.parent_kind(id) == Some(*k),
                None => self@.parent_kind(id) is None,
            },
    {
        match self.parents[id] {
            Some(p) => Some(&self.nodes[p].kind),
            None => None,
        }
    }

    /// Whether every span is a range of a text of `len` bytes.
    pub fn fits_source(&self, len: usize) -> (fits: bool)
        ensures
            fits == self@.fits(len as nat),
    {
        let mut i: usize = 0;
        while i < self.nodes.len()
            invariant
                i <= self.nodes.len(),
                forall|k: int|
                    0 <= k < i ==> (#[trigger] self@.nodes[k]).span.start <= self@.nodes[k].span.end
                        <= len,
            decreases self.nodes.len() - i,
        {
            let span = self.nodes[i].span;
            if span.start > span.end || span.end as usize > len {
                assert(!(self@.nodes[i as int].span.start <= self@.nodes[i as int].span.end <= len));
                return false;
            }
            i += 1;
        }
        true
    }

    /// Whether no two children of one node share a span.
    pub fn has_siblings_apart(&self) -> (apart: bool)
        requires
            self@.wf(),
        ensures
            apart == self@.siblings_apart(),
    {
        let mut i: usize = 0;
        while i < self.nodes.len()
            invariant
                self@.wf(),
                i <= self.nodes.len(),
                forall|n: int, a: int, b: int|
                    #![trigger self@.nodes[n].kind.spec_children()[a], self@.nodes[n].kind.spec_children()[b]]
                    0 <= n < i && 0 <= a < b < self@.nodes[n].kind.spec_children().len()
                        ==> self@.span(self@.nodes[n].kind.spec_children()[a]) != self@.span(
                        self@.nodes[n].kind.spec_children()[b],
                    ),
            decreases self.nodes.len() - i,
        {
            let kids = self.nodes[i].kind.children();
            proof {
                self@.nodes[i as int].kind.lemma_children_listed(
                    |c: NodeId| self@.is_child_of(c, i as int),
                );
            }
            let mut b: usize = 0;
            while b < kids.len()
                invariant
                    self@.wf(),
                    i < self.nodes.len(),
                    b <= kids.len(),
                    kids@ == self@.nodes[i as int].kind.spec_children(),
                    forall|k: int| 0 <= k < kids.len() ==> (#[trigger] kids@[k]) < self@.len(),
                    forall|x: int, y: int|
                        #![trigger kids@[x], kids@[y]]
                        0 <= x < y < b ==> self@.span(kids@[x]) != self@.span(kids@[y]),
                decreases kids.len() - b,
            {
                let mut a: usize = 0;
                while a < b
                    invariant
                        self@.wf(),
                        a <= b < kids.len(),
                        i < self.nodes.len(),
                        kids@ == self@.nodes[i as int].kind.spec_children(),
                        forall|k: int| 0 <= k < kids.len() ==> (#[trigger] kids@[k]) < self@.len(),
                        forall|x: int|
                            0 <= x < a ==> self@.span(#[trigger] kids@[x]) != self@.span(
                                kids@[b as int],
                            ),
                    decreases b - a,
                {
                    if self.nodes[kids[a]].span == self.nodes[kids[b]].span {
                        assert(self@.span(kids@[a as int]) == self@.span(kids@[b as int]));
                        return false;
                    }
                    a += 1;
                }
                b += 1;
            }
            i += 1;
        }
        true
    }

    /// What stands in the way of adding a node with these children and this
    /// span, if anything.
    fn violation(&self, kind: &NodeKind, span: Span, kids: &Vec<NodeId>) -> (found: Option<
        InvariantViolation,
    >)
        requires
            self@.wf(),
            kids@ == kind.spec_children(),
        ensures
            found == add_violation(self@, *kind, span),
    {
        let n = self.nodes.len();
        proof {
            kind.lemma_children_listed(|c: NodeId| c < self@.nodes.len());
            kind.lemma_children_listed(|c: NodeId| self@.parents[c as int] is None);
            kind.lemma_children_listed(|c: NodeId| span.covers(self@.nodes[c as int].span));
        }
        let ghost known = |c: NodeId| c < self@.nodes.len();
        let ghost free = |c: NodeId| self@.parents[c as int] is None;
        let ghost inside = |c: NodeId| span.covers(self@.nodes[c as int].span);
        let mut i: usize = 0;
        while i < kids.len()
            invariant
                i <= kids.len(),
                n == self.nodes.len(),
                known == (|c: NodeId| c < self@.nodes.len()),
                kind.children_satisfy(known) == holds_of_all(kids@, known),
                forall|k: int| 0 <= k < i ==> (#[trigger] kids@[k]) < n,
            decreases kids.len() - i,
        {
            if kids[i] >= n {
                assert(!known(kids@[i as int]));
                return Some(InvariantViolation::UnknownChild { span });
            }
            i += 1;
        }
        assert(holds_of_all(kids@, known));
        i = 0;
        while i < kids.len()
            invariant
                i <= kids.len(),
                n == self.nodes.len(),
                self.parents.len() == n,
                self@.wf(),
                known == (|c: NodeId| c < self@.nodes.len()),
                free == (|c: NodeId| self@.parents[c as int] is None),
                kind.children_satisfy(known),
                kind.children_satisfy(free) == holds_of_all(kids@, free),
                forall|k: int| 0 <= k < kids.len() ==> (#[trigger] kids@[k]) < n,
                forall|k: int| 0 <= k < i ==> self.parents@[(#[trigger] kids@[k]) as int] is None,
            decreases kids.len() - i,
        {
            if self.parents[kids[i]].is_some() {
                assert(!free(kids@[i as int]));
                return Some(InvariantViolation::ChildHasParent { span });
            }
            i += 1;
        }
        assert(holds_of_all(kids@, free));
        i = 0;
        while i < kids.len()
            invariant
                i <= kids.len(),
                n == self.nodes.len(),
                known == (|c: NodeId| c < self@.nodes.len()),
                free == (|c: NodeId| self@.parents[c as int] is None),
                inside == (|c: NodeId| span.covers(self@.nodes[c as int].span)),
                kind.children_satisfy(known),
                kind.children_satisfy(free),
                kind.children_satisfy(inside) == holds_of_all(kids@, inside),
                forall|k: int| 0 <= k < kids.len() ==> (#[trigger] kids@[k]) < n,
                forall|k: int|
                    0 <= k < i ==> span.covers(self.nodes@[(#[trigger] kids@[k]) as int].span),
            decreases kids.len() - i,
        {
            if !span.contains_inclusive(self.nodes[kids[i]].span) {
                assert(!inside(kids@[i as int]));
                return Some(InvariantViolation::SpanContainment { span });
            }
            i += 1;
        }
        assert(holds_of_all(kids@, inside));
        None
    }

    /// Adds a node whose children are already in the arena and links them to
    /// it. A node is refused, and the arena left as it was, when a child is
    /// unknown, already has a parent, or reaches outside the node's span.
    pub fn add(&mut self, kind: NodeKind, span: Span) -> (added: Result<NodeId, InvariantViolation>)
        requires
            old(self)@.wf(),
        ensures
            final(self)@.wf(),
            match add_violation(old(self)@, kind, span) {
                Some(violation) => added == Err::<NodeId, InvariantViolation>(violation)
                    && final(self)@ == old(self)@,
                None => added == Ok::<NodeId, InvariantViolation>(old(self)@.nodes.len() as usize)
                    && final(self)@ == with_node(old(self)@, kind, span),
            },
    {
        let kids = kind.children();
        let n = self.nodes.len();
        if let Some(violation) = self.violation(&kind, span, &kids) {
            return Err(violation);
        }
        let ghost before = self@;
        proof {
            kind.lemma_children_listed(|c: NodeId| c < before.nodes.len());
        }
        let mut i: usize = 0;
        while i < kids.len()
            invariant
                i <= kids.len(),
                n == self.nodes.len(),
                self.parents.len() == n,
                before.parents.len() == n,
                self.nodes@ == before.nodes,
                forall|k: int| 0 <= k < kids.len() ==> (#[trigger] kids@[k]) < n,
                forall|c: int|
                    0 <= c < n ==> #[trigger] self.parents@[c] == if exists|k: int|
                        0 <= k < i && kids@[k] == c {
                        Some(n)
                    } else {
                        before.parents[c]
                    },
            decreases kids.len() - i,
        {
            let child = kids[i];
            self.parents.set(child, Some(n));
            i += 1;
            assert forall|c: int| 0 <= c < n implies #[trigger] self.parents@[c] == if exists|
                k: int,
            |
                0 <= k < i && kids@[k] == c {
                Some(n)
            } else {
                before.parents[c]
            } by {
                if c == child {
                    assert(kids@[i - 1] == c);
                } else if exists|k: int| 0 <= k < i && kids@[k] == c {
                    let k = choose|k: int| 0 <= k < i && kids@[k] == c;
                    assert(0 <= k < i - 1 && kids@[k] == c);
                }
            }
        }
        self.nodes.push(Node { kind, span });
        self.parents.push(None);
        let count = self.nodes.len();
        proof {
            assert(count == n + 1);
            let after = self@;
            let target = with_node(before, kind, span);
            assert forall|c: NodeId| c < n implies (#[trigger] kind.has_child(c) <==> exists|
                k: int,
            |
                0 <= k < kids.len() && kids@[k] == c) by {
                kind.lemma_children_listed(|x: NodeId| x != c);
                if exists|k: int| 0 <= k < kids.len() && kids@[k] == c {
                    let k = choose|k: int| 0 <= k < kids.len() && kids@[k] == c;
                    assert(!(|x: NodeId| x != c)(kids@[k]));
                }
            }
            assert forall|c: int| 0 <= c < n + 1 implies after.parents[c] == target.parents[c] by {
                if c < n {
                    assert(kind.has_child(c as usize) <==> exists|k: int|
                        0 <= k < kids.len() && kids@[k] == c);
                }
            }
            assert(after.parents =~= target.parents);
            assert(after == target);
            lemma_with_node_wf(before, kind, span);
        }
        Ok(n)
    }
}

/// Adding an admissible node keeps the tree well formed.
pub proof fn lemma_with_node_wf(tree: AstView, kind: NodeKind, span: Span)
    requires
        tree.wf(),
        tree.nodes.len() < usize::MAX,
        add_violation(tree, kind, span) is None,
    ensures
        with_node(tree, kind, span).wf(),
{
    let after = with_node(tree, kind, span);
    let n = tree.nodes.len() as int;
    assert forall|i: int| 0 <= i < after.nodes.len() implies (#[trigger] after.nodes[i]).kind.children_satisfy(
    |c: NodeId| after.is_child_of(c, i)) by {
        let k = after.nodes[i].kind;
        if i < n {
            lemma_children_satisfy_weaken(
                k,
                |c: NodeId| tree.is_child_of(c, i),
                |c: NodeId| after.is_child_of(c, i),
            );
        } else {
            lemma_children_satisfy_both(
                k,
                |c: NodeId| c < tree.nodes.len(),
                |c: NodeId| span.covers(tree.nodes[c as int].span),
            );
            lemma_children_satisfy_strengthen(
                k,
                |c: NodeId| c < tree.nodes.len() && span.covers(tree.nodes[c as int].span),
                |c: NodeId| after.is_child_of(c, i),
            );
        }
    }
    assert forall|c: int| 0 <= c < after.nodes.len() implies (#[trigger] after.parents[c] matches Some(
        p,
    ) ==> c < p < after.nodes.len() && after.nodes[p as int].kind.has_child(c as usize)) by {
        if c < n {
            if kind.has_child(c as usize) {
                assert(after.parents[c] == Some(n as usize));
                assert(after.nodes[n] == Node { kind, span });
            } else if let Some(p) = tree.parents[c] {
                assert(after.parents[c] == Some(p));
                assert(after.nodes[p as int] == tree.nodes[p as int]);
            }
        }
    }
}

/// A property that follows pointwise from one that holds of every child
/// holds of every child too.
pub proof fn lemma_children_satisfy_weaken(
    kind: NodeKind,
    p: spec_fn(NodeId) -> bool,
    q: spec_fn(NodeId) -> bool,
)
    requires
        kind.children_satisfy(p),
        forall|c: NodeId| #[trigger] p(c) ==> q(c),
    ensures
        kind.children_satisfy(q),
{
    kind.lemma_children_listed(p);
    kind.lemma_children_listed(q);
}

/// As [`lemma_children_satisfy_weaken`], where the implication is only
/// needed of the node's own children.
pub proof fn lemma_children_satisfy_strengthen(
    kind: NodeKind,
    p: spec_fn(NodeId) -> bool,
    q: spec_fn(NodeId) -> bool,
)
    requires
        kind.children_satisfy(p),
        forall|c: NodeId| #[trigger] p(c) && kind.has_child(c) ==> q(c),
    ensures
        kind.children_satisfy(q),
{
    kind.lemma_children_listed(p);
    kind.lemma_children_listed(q);
    let kids = kind.spec_children();
    assert forall|k: int| 0 <= k < kids.len() implies q(#[trigger] kids[k]) by {
        let c = kids[k];
        kind.lemma_children_listed(|x: NodeId| x != c);
        assert(!(|x: NodeId| x != c)(kids[k]));
    }
}

/// Two properties that each hold of every child hold of every child together.
pub proof fn lemma_children_satisfy_both(
    kind: NodeKind,
    p: spec_fn(NodeId) -> bool,
    q: spec_fn(NodeId) -> bool,
)
    requires
        kind.children_satisfy(p),
        kind.children_satisfy(q),
    ensures
        kind.children_satisfy(|c: NodeId| p(c) && q(c)),
{
    kind.lemma_children_listed(p);
    kind.lemma_children_listed(q);
    kind.lemma_children_listed(|c: NodeId| p(c) && q(c));
}

/// A node that names a child is the parent of that child, stands after it
/// in the arena, and covers its span.
pub proof fn lemma_child_links_to_parent(tree: AstView, id: NodeId, child: NodeId)
    requires
        tree.wf(),
        id < tree.len(),
        tree.kind(id).has_child(child),
    ensures
        child < id,
        tree.parent(child) == Some(id),
        tree.span(id).covers(tree.span(child)),
{
    let linked = |c: NodeId| tree.is_child_of(c, id as int);
    assert(tree.nodes[id as int].kind.children_satisfy(linked));
    if !linked(child) {
        lemma_children_satisfy_weaken(tree.kind(id), linked, |c: NodeId| c != child);
    }
}

/// The parent of a node names the node among its children, stands after it
/// in the arena, and covers its span.
pub proof fn lemma_parent_names_child(tree: AstView, child: NodeId)
    requires
        tree.wf(),
        child < tree.len(),
        tree.parent(child) is Some,
    ensures
        child < tree.parent(child)->Some_0 < tree.len(),
        tree.kind(tree.parent(child)->Some_0).has_child(child),
        tree.span(tree.parent(child)->Some_0).covers(tree.span(child)),
{
    let parent = tree.parent(child)->Some_0;
    assert(tree.parents[child as int] == Some(parent));
    lemma_child_links_to_parent(tree, parent, child);
}

/// No node has two parents: a node that two nodes name is named by one node
/// twice.
pub proof fn lemma_one_parent(tree: AstView, first: NodeId, second: NodeId, child: NodeId)
    requires
        tree.wf(),
        first < tree.len(),
        second < tree.len(),
        tree.kind(first).has_child(child),
        tree.kind(second).has_child(child),
    ensures
        first == second,
{
    lemma_child_links_to_parent(tree, first, child);
    lemma_child_links_to_parent(tree, second, child);
}

/// `above` is reached from `below` by following parent links, in any number
/// of steps, none included.
pub open spec fn spec_is_ancestor_or_self(tree: AstView, above: NodeId, below: NodeId) -> bool
    decreases tree.len() - below,
{
    above == below || match tree.parent(below) {
        Some(parent) => spec_is_ancestor_or_self(tree, above, parent),
        None => false,
    }
}

/// The span of a node lies within the span of each of its ancestors, and
/// each ancestor stands after the node in the arena.
pub proof fn lemma_ancestor_covers(tree: AstView, above: NodeId, below: NodeId)
    requires
        tree.wf(),
        below < tree.len(),
        spec_is_ancestor_or_self(tree, above, below),
    ensures
        below <= above < tree.len(),
        tree.span(above).covers(tree.span(below)),
    decreases tree.len() - below,
{
    if above != below {
        let parent = tree.parent(below)->Some_0;
        lemma_parent_names_child(tree, below);
        lemma_ancestor_covers(tree, above, parent);
    }
}

/// A node that has just been added is a root, and the nodes that it names
/// are its children.
pub proof fn lemma_added_node_is_root(tree: AstView, kind: NodeKind, span: Span)
    requires
        tree.wf(),
        add_violation(tree, kind, span) is None,
    ensures
        with_node(tree, kind, span).parent(tree.len() as usize) is None,
        with_node(tree, kind, span).kind(tree.len() as usize) == kind,
        with_node(tree, kind, span).span(tree.len() as usize) == span,
        forall|c: NodeId|
            c < tree.len() && #[trigger] kind.has_child(c) ==> with_node(tree, kind, span).parent(c)
                == Some(tree.len() as usize),
        forall|c: NodeId|
            c < tree.len() && !#[trigger] kind.has_child(c) ==> with_node(tree, kind, span).parent(
                c,
            ) == tree.parent(c),
{
}

/// Where no two siblings share a span, the two operands of a binary or
/// logical expression have different spans.
pub proof fn lemma_operands_apart(tree: AstView, id: NodeId)
    requires
        tree.siblings_apart(),
        id < tree.len(),
    ensures
        tree.kind(id) matches NodeKind::BinaryExpression { left, right, .. } ==> tree.span(left)
            != tree.span(right),
        tree.kind(id) matches NodeKind::LogicalExpression { left, right, .. } ==> tree.span(left)
            != tree.span(right),
{
    let children = tree.nodes[id as int].kind.spec_children();
    match tree.kind(id) {
        NodeKind::BinaryExpression { left, right, .. } => {
            assert(children[0] == left && children[1] == right);
        },
        NodeKind::LogicalExpression { left, right, .. } => {
            assert(children[0] == left && children[1] == right);
        },
        _ => {},
    }
}

} // verus!
