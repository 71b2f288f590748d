//! The rule that asks for `===` and `!==` in place of `==` and `!=`.

use vstd::prelude::*;
use vstd::string::*;
use crate::ast::{Ast, AstView, NodeId, NodeKind};
use crate::lint::diagnostic::{Diagnostic, Fix, Report};
use crate::operator::{BinaryOperator, UnaryOperator};
use crate::span::Span;
use crate::text::{find, join, spec_find, str_equals};
use serde_json::Value;

verus! {

/// A JSON value of `serde_json`: the configuration of a rule as it was read
/// from a configuration file.
#[verifier::external_type_specification]
#[verifier::external_body]
pub struct ExValue(Value);

/// The element `index` of a JSON array; `None` for a value that is no array
/// and for an index past its end.
pub uninterp spec fn json_item(value: Value, index: usize) -> Option<Value>;

/// The member `key` of a JSON object; `None` for a value that is no object
/// and for a key that it does not hold.
pub uninterp spec fn json_member(value: Value, key: Seq<char>) -> Option<Value>;

/// The text of a JSON string; `None` for a value that is no string.
pub uninterp spec fn json_text(value: Value) -> Option<Seq<char>>;

/// `Value::get` with a number: the element `index` of an array.
#[verifier::external_body]
fn get_item(value: &Value, index: usize) -> (item: Option<&Value>)
    ensures
        match item {
            Some(found) => json_item(*value, index) == Some(*found),
            None => json_item(*value, index) is None,
        },
{
    value.get(index)
}

/// `Value::get` with a string: the member `key` of an object.
#[verifier::external_body]
fn get_member<'a>(value: &'a Value, key: &str) -> (member: Option<&'a Value>)
    ensures
        match member {
            Some(found) => json_member(*value, key@) == Some(*found),
            None => json_member(*value, key@) is None,
        },
{
    value.get(key)
}

/// `Value::as_str`: the text of a string.
#[verifier::external_body]
fn as_text(value: &Value) -> (text: Option<&str>)
    ensures
        match text {
            Some(found) => json_text(*value) == Some(found@),
            None => json_text(*value) is None,
        },
{
    value.as_str()
}

/// When a loose comparison is reported.
#[derive(Clone, Copy, Debug, PartialEq, Eq, Structural)]
pub enum CompareType {
    /// Every loose comparison is reported.
    Always,
    /// Comparisons of two literals of one type, of a `typeof` result, and
    /// against `null` are let through.
    Smart,
}

/// How comparisons against `null` are treated.
#[derive(Clone, Copy, Debug, PartialEq, Eq, Structural)]
pub enum NullType {
    /// `null` is compared strictly, like everything else.
    Always,
    /// `null` is never compared strictly.
    Never,
    /// The rule says nothing of comparisons against `null`.
    Ignore,
}

impl Default for CompareType {
    /// Every loose comparison is reported.
    fn default() -> (kind: CompareType)
        ensures
            kind == CompareType::Always,
    {
        CompareType::Always
    }
}

impl Default for NullType {
    /// `null` is compared strictly, like everything else.
    fn default() -> (kind: NullType)
        ensures
            kind == NullType::Always,
    {
        NullType::Always
    }
}

impl CompareType {
    /// What a configuration word stands for.
    pub open spec fn of(raw: Seq<char>) -> CompareType {
        if raw == "smart"@ {
            CompareType::Smart
        } else {
            CompareType::Always
        }
    }

    /// Reads the first configuration word: `"smart"` selects
    /// [`CompareType::Smart`], any other word [`CompareType::Always`].
    pub fn from(raw: &str) -> (kind: CompareType)
        ensures
            kind == CompareType::of(raw@),
    {
        if str_equals(raw, "smart") {
            CompareType::Smart
        } else {
            CompareType::Always
        }
    }
}

impl NullType {
    /// What the word under the `null` key stands for.
    pub open spec fn of(raw: Seq<char>) -> NullType {
        if raw == "always"@ {
            NullType::Always
        } else if raw == "never"@ {
            NullType::Never
        } else {
            NullType::Ignore
        }
    }

    /// Reads the word under the `null` key: `"always"` and `"never"` select
    /// the variants of those names, any other word [`NullType::Ignore`].
    pub fn from(raw: &str) -> (kind: NullType)
        ensures
            kind == NullType::of(raw@),
    {
        if str_equals(raw, "always") {
            NullType::Always
        } else if str_equals(raw, "never") {
            NullType::Never
        } else {
            NullType::Ignore
        }
    }
}

/// The configured rule.
#[derive(Clone, Copy, Debug, PartialEq, Eq, Structural)]
pub struct Eqeqeq {
    pub compare_type: CompareType,
    pub null_type: NullType,
}

impl Default for Eqeqeq {
    /// Everything is compared strictly, `null` included.
    fn default() -> (rule: Eqeqeq)
        ensures
            rule == (Eqeqeq { compare_type: CompareType::Always, null_type: NullType::Always }),
    {
        Eqeqeq { compare_type: CompareType::Always, null_type: NullType::Always }
    }
}

/// The text of the value, if there is a value and it is a string.
pub open spec fn spec_text_of(value: Option<Value>) -> Option<Seq<char>> {
    match value {
        Some(found) => json_text(found),
        None => None,
    }
}

/// The word that a configuration begins with, if it begins with one.
pub open spec fn spec_first_word(configuration: Value) -> Option<Seq<char>> {
    spec_text_of(json_item(configuration, 0))
}

/// The word under the key `null` in the options of a configuration. The
/// options are the second element where the configuration begins with a
/// word, and the first where it does not.
pub open spec fn spec_null_word(configuration: Value) -> Option<Seq<char>> {
    let options = json_item(
        configuration,
        if spec_first_word(configuration) is Some {
            1
        } else {
            0
        },
    );
    match options {
        Some(found) => spec_text_of(json_member(found, "null"@)),
        None => None,
    }
}

impl Eqeqeq {
    /// The rule that the two words of a configuration select. A missing
    /// word selects the default.
    pub open spec fn spec_from_words(
        first: Option<Seq<char>>,
        null_word: Option<Seq<char>>,
    ) -> Eqeqeq {
        Eqeqeq {
            compare_type: match first {
                Some(word) => CompareType::of(word),
                None => CompareType::Always,
            },
            null_type: match null_word {
                Some(word) => NullType::of(word),
                None => NullType::Always,
            },
        }
    }

    /// The rule that the two words of a configuration select: the word that
    /// the configuration begins with, and the word under the key `null`.
    pub fn from_words(first: Option<&str>, null_word: Option<&str>) -> (rule: Eqeqeq)
        ensures
            rule == Self::spec_from_words(
                match first {
                    Some(word) => Some(word@),
                    None => None,
                },
                match null_word {
                    Some(word) => Some(word@),
                    None => None,
                },
            ),
    {
        let null_type = match null_word {
            Some(word) => NullType::from(word),
            None => NullType::Always,
        };
        let compare_type = match first {
            Some(word) => CompareType::from(word),
            None => CompareType::Always,
        };
        Eqeqeq { compare_type, null_type }
    }

    /// Reads the rule from its configuration: an array that may begin with
    /// the word `"always"` or `"smart"`, followed by an object that may hold
    /// a word under the key `null`.
    pub fn from_configuration(value: &Value) -> (rule: Eqeqeq)
        ensures
            rule == Self::spec_from_words(spec_first_word(*value), spec_null_word(*value)),
    {
        let first_arg = match get_item(value, 0) {
            Some(first) => as_text(first),
            None => None,
        };
        let options = get_item(
            value,
            if first_arg.is_some() {
                1
            } else {
                0
            },
        );
        let null_word = match options {
            Some(found) => match get_member(found, "null") {
                Some(word) => as_text(word),
                None => None,
            },
            None => None,
        };
        Self::from_words(first_arg, null_word)
    }
}

/// The warning that `x1` was expected where `x0` stands.
pub fn eqeqeq_diagnostic(x0: &str, x1: &str, span2: Span) -> (diagnostic: Diagnostic)
    ensures
        diagnostic.message@ == "Expected "@ + x1@ + " and instead saw "@ + x0@,
        diagnostic.help@ == "Prefer "@ + x1@ + " operator"@,
        diagnostic.label == span2,
{
    let mut message = join("Expected ", x1);
    message.append(" and instead saw ");
    message.append(x0);
    let mut help = join("Prefer ", x1);
    help.append(" operator");
    Diagnostic { message, help, label: span2 }
}

/// The strict operator for a loose one, bare and with a space on each side.
pub open spec fn spec_strict_operator(operator: BinaryOperator) -> (Seq<char>, Seq<char>) {
    if operator is Equality {
        ("==="@, " === "@)
    } else {
        ("!=="@, " !== "@)
    }
}

/// The strict operator for `==` or `!=`, bare and with a space on each side.
pub fn to_strict_eq_operator_str(operator: BinaryOperator) -> (strict: (&'static str, &'static str))
    requires
        operator.spec_is_loose_equality(),
    ensures
        strict.0@ == spec_strict_operator(operator).0,
        strict.1@ == spec_strict_operator(operator).1,
{
    match operator {
        BinaryOperator::Equality => ("===", " === "),
        _ => ("!==", " !== "),
    }
}

/// One operand is the result of `typeof`. Where the left operand is a unary
/// expression, it alone decides.
pub open spec fn spec_is_type_of_binary(left: NodeKind, right: NodeKind) -> bool {
    match left {
        NodeKind::UnaryExpression { operator, .. } => operator is Typeof,
        _ => match right {
            NodeKind::UnaryExpression { operator, .. } => operator is Typeof,
            _ => false,
        },
    }
}

/// Checks if either operand of a binary expression is a typeof operation
pub fn is_type_of_binary(left: &NodeKind, right: &NodeKind) -> (type_of: bool)
    ensures
        type_of == spec_is_type_of_binary(*left, *right),
{
    match left {
        NodeKind::UnaryExpression { operator, .. } => matches!(operator, UnaryOperator::Typeof),
        _ => match right {
            NodeKind::UnaryExpression { operator, .. } => matches!(operator, UnaryOperator::Typeof),
            _ => false,
        },
    }
}

/// Both operands are literals of one type.
pub open spec fn spec_are_literals_and_same_type(left: NodeKind, right: NodeKind) -> bool {
    ||| left is BooleanLiteral && right is BooleanLiteral
    ||| left is NullLiteral && right is NullLiteral
    ||| left is StringLiteral && right is StringLiteral
    ||| left is NumericLiteral && right is NumericLiteral
    ||| left is BigIntLiteral && right is BigIntLiteral
    ||| left is RegExpLiteral && right is RegExpLiteral
    ||| left is TemplateLiteral && right is TemplateLiteral
}

/// Checks if operands are literals of the same type
pub fn are_literals_and_same_type(left: &NodeKind, right: &NodeKind) -> (same: bool)
    ensures
        same == spec_are_literals_and_same_type(*left, *right),
{
    match (left, right) {
        (NodeKind::BooleanLiteral, NodeKind::BooleanLiteral) => true,
        (NodeKind::NullLiteral, NodeKind::NullLiteral) => true,
        (NodeKind::StringLiteral, NodeKind::StringLiteral) => true,
        (NodeKind::NumericLiteral, NodeKind::NumericLiteral) => true,
        (NodeKind::BigIntLiteral, NodeKind::BigIntLiteral) => true,
        (NodeKind::RegExpLiteral, NodeKind::RegExpLiteral) => true,
        (NodeKind::TemplateLiteral { .. }, NodeKind::TemplateLiteral { .. }) => true,
        _ => false,
    }
}

/// One operand is `null`.
pub open spec fn spec_is_null_check(left: NodeKind, right: NodeKind) -> bool {
    left is NullLiteral || right is NullLiteral
}

/// Whether one operand is `null`.
pub fn is_null_check(left: &NodeKind, right: &NodeKind) -> (null: bool)
    ensures
        null == spec_is_null_check(*left, *right),
{
    matches!(left, NodeKind::NullLiteral) || matches!(right, NodeKind::NullLiteral)
}

/// The text less its last character; the empty text stays as it is.
pub open spec fn spec_without_last(text: Seq<char>) -> Seq<char> {
    if text.len() > 0 {
        text.drop_last()
    } else {
        text
    }
}

/// The bytes of `==` and of `!=`.
pub open spec fn spec_loose_operator_bytes(operator: BinaryOperator) -> Seq<u8> {
    if operator is Equality {
        seq![0x3Du8, 0x3Du8]
    } else {
        seq![0x21u8, 0x3Du8]
    }
}

/// What the rule expects to be reported.
pub ghost struct Expected {
    /// The operator that stands in the text.
    pub saw: Seq<char>,
    /// The operator that the rule asks for.
    pub wanted: Seq<char>,
    /// The place that the warning points at.
    pub label: Span,
    /// The text between the operands that replaces what stands there, where
    /// the change is safe.
    pub fix: Option<(Span, Seq<char>)>,
}

/// Where the operator stands between the operands: where its text is first
/// found after the left operand, and directly after the left operand where
/// it is not found.
pub open spec fn spec_operator_span(
    source: Seq<u8>,
    left: Span,
    right: Span,
    operator: BinaryOperator,
) -> Span {
    let start = match spec_find(
        source,
        left.end as int,
        right.start as int,
        spec_loose_operator_bytes(operator),
    ) {
        Some(at) => at,
        None => left.end as int,
    };
    Span {
        start: start as u32,
        end: if start + 2 > u32::MAX {
            u32::MAX
        } else {
            (start + 2) as u32
        },
    }
}

impl Eqeqeq {
    /// What the rule reports of the node `node`, if anything.
    ///
    /// Only binary expressions are looked at. An operator other than `==`
    /// and `!=` is reported only in a comparison against `null` where `null`
    /// is never to be compared strictly; the operator asked for is then the
    /// one at hand less its last character. A loose comparison is let
    /// through under [`CompareType::Smart`] where it compares a `typeof`
    /// result, two literals of one type, or against `null`; and wherever it
    /// compares against `null` and `null` is not always to be compared
    /// strictly. Otherwise it is reported, with a fix where it compares a
    /// `typeof` result or two literals of one type.
    pub open spec fn spec_run(self, tree: AstView, node: NodeId, source: Seq<u8>) -> Option<
        Expected,
    > {
        match tree.kind(node) {
            NodeKind::BinaryExpression { operator, left, right } => {
                let left_kind = tree.kind(left);
                let right_kind = tree.kind(right);
                let is_null = spec_is_null_check(left_kind, right_kind);
                let easy = spec_is_type_of_binary(left_kind, right_kind)
                    || spec_are_literals_and_same_type(left_kind, right_kind);
                if !operator.spec_is_loose_equality() {
                    if self.null_type is Never && is_null {
                        Some(
                            Expected {
                                saw: operator.spec_as_str(),
                                wanted: spec_without_last(operator.spec_as_str()),
                                label: tree.span(node),
                                fix: None,
                            },
                        )
                    } else {
                        None
                    }
                } else if self.compare_type is Smart && (easy || is_null) {
                    None
                } else if !(self.null_type is Always) && is_null {
                    None
                } else {
                    Some(
                        Expected {
                            saw: operator.spec_as_str(),
                            wanted: spec_strict_operator(operator).0,
                            label: spec_operator_span(
                                source,
                                tree.span(left),
                                tree.span(right),
                                operator,
                            ),
                            fix: if easy {
                                Some(
                                    (
                                        Span {
                                            start: tree.span(left).end,
                                            end: tree.span(right).start,
                                        },
                                        spec_strict_operator(operator).1,
                                    ),
                                )
                            } else {
                                None
                            },
                        },
                    )
                }
            },
            _ => None,
        }
    }

    /// Checks the node `node` of a tree that was parsed from `source`.
    pub fn run(&self, ast: &Ast, node: NodeId, source: &[u8]) -> (report: Option<Report>)
        requires
            ast@.wf(),
            node < ast@.len(),
        ensures
            spec_is_reported(report, self.spec_run(ast@, node, source@)),
    {
        let (operator, left, right) = match ast.kind(node) {
            NodeKind::BinaryExpression { operator, left, right } => (*operator, *left, *right),
            _ => {
                return None;
            },
        };
        let is_null = is_null_check(ast.kind(left), ast.kind(right));
        let enforce_rule_for_null = matches!(self.null_type, NullType::Always);
        let enforce_inverse_rule_for_null = matches!(self.null_type, NullType::Never);
        let text = operator.as_str();
        if !operator.is_loose_equality() {
            if enforce_inverse_rule_for_null && is_null {
                let length = text.unicode_len();
                let wanted = if length > 0 {
                    text.substring_char(0, length - 1)
                } else {
                    text
                };
                proof {
                    if length > 0 {
                        assert(text@.subrange(0, length - 1) =~= text@.drop_last());
                    }
                }
                return Some(
                    Report { diagnostic: eqeqeq_diagnostic(text, wanted, ast.span(node)), fix: None },
                );
            }
            return None;
        }
        let is_type_of_binary_bool = is_type_of_binary(ast.kind(left), ast.kind(right));
        let are_literals_and_same_type_bool = are_literals_and_same_type(
            ast.kind(left),
            ast.kind(right),
        );
        if matches!(self.compare_type, CompareType::Smart) && (is_type_of_binary_bool
            || are_literals_and_same_type_bool || is_null) {
            return None;
        }
        if !enforce_rule_for_null && is_null {
            return None;
        }
        let (preferred_operator, preferred_operator_with_padding) = to_strict_eq_operator_str(
            operator,
        );
        let left_end = ast.span(left).end;
        let right_start = ast.span(right).start;
        let needle: Vec<u8> = if matches!(operator, BinaryOperator::Equality) {
            vec![0x3Du8, 0x3Du8]
        } else {
            vec![0x21u8, 0x3Du8]
        };
        assert(needle@ =~= spec_loose_operator_bytes(operator));
        let operator_start: u32 = match find(
            source,
            left_end as usize,
            right_start as usize,
            needle.as_slice(),
        ) {
            Some(at) => at as u32,
            None => left_end,
        };
        let operator_end: u32 = if operator_start > u32::MAX - 2 {
            u32::MAX
        } else {
            operator_start + 2
        };
        let operator_span = Span::new(operator_start, operator_end);
        let diagnostic = eqeqeq_diagnostic(text, preferred_operator, operator_span);
        if is_type_of_binary_bool || are_literals_and_same_type_bool {
            let fix = Fix {
                span: Span::new(left_end, right_start),
                content: preferred_operator_with_padding.to_owned(),
            };
            Some(Report { diagnostic, fix: Some(fix) })
        } else {
            Some(Report { diagnostic, fix: None })
        }
    }
}

/// `report` says what `expected` describes: the same operators in its
/// message and help, the same label, the same fix.
pub open spec fn spec_is_reported(report: Option<Report>, expected: Option<Expected>) -> bool {
    match (report, expected) {
        (None, None) => true,
        (Some(given), Some(wanted)) => {
            &&& given.diagnostic.message@ == "Expected "@ + wanted.wanted + " and instead saw "@
                + wanted.saw
            &&& given.diagnostic.help@ == "Prefer "@ + wanted.wanted + " operator"@
            &&& given.diagnostic.label == wanted.label
            &&& match (given.fix, wanted.fix) {
                (None, None) => true,
                (Some(fix), Some((span, content))) => fix.span == span && fix.content@ == content,
                _ => false,
            }
        },
        _ => false,
    }
}

} // verus!
