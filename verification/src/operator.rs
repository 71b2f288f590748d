//! Operators, their precedence classes, and the rules by which two operators
//! of one class may share a line without parentheses.

use vstd::prelude::*;

verus! {

/// The operators of binary expressions, the logical ones excepted.
#[derive(Clone, Copy, Debug, PartialEq, Eq, Structural)]
pub enum BinaryOperator {
    Equality,
    Inequality,
    StrictEquality,
    StrictInequality,
    LessThan,
    LessEqualThan,
    GreaterThan,
    GreaterEqualThan,
    Addition,
    Subtraction,
    Multiplication,
    Division,
    Remainder,
    Exponential,
    ShiftLeft,
    ShiftRight,
    ShiftRightZeroFill,
    BitwiseOR,
    BitwiseXOR,
    BitwiseAnd,
    In,
    Instanceof,
}

/// The short-circuiting operators `||`, `&&` and `??`.
#[derive(Clone, Copy, Debug, PartialEq, Eq, Structural)]
pub enum LogicalOperator {
    Or,
    And,
    Coalesce,
}

/// The prefix operators of unary expressions.
#[derive(Clone, Copy, Debug, PartialEq, Eq, Structural)]
pub enum UnaryOperator {
    UnaryPlus,
    UnaryNegation,
    LogicalNot,
    BitwiseNot,
    Typeof,
    Void,
    Delete,
}

/// `++` and `--`.
#[derive(Clone, Copy, Debug, PartialEq, Eq, Structural)]
pub enum UpdateOperator {
    Increment,
    Decrement,
}

/// Precedence classes, from the loosest binding to the tightest. Only the
/// relative position of two classes carries meaning.
#[derive(Clone, Copy, Debug, PartialEq, Eq, Structural)]
pub enum Precedence {
    Lowest,
    Comma,
    Spread,
    Yield,
    Assign,
    Conditional,
    NullishCoalescing,
    LogicalOr,
    LogicalAnd,
    BitwiseOr,
    BitwiseXor,
    BitwiseAnd,
    Equals,
    Compare,
    Shift,
    Add,
    Multiply,
    Exponentiation,
    Prefix,
    Postfix,
    New,
    Call,
    Member,
}

impl Precedence {
    /// The position of the class: a larger rank binds tighter.
    pub open spec fn spec_rank(self) -> nat {
        match self {
            Precedence::Lowest => 0,
            Precedence::Comma => 1,
            Precedence::Spread => 2,
            Precedence::Yield => 3,
            Precedence::Assign => 4,
            Precedence::Conditional => 5,
            Precedence::NullishCoalescing => 6,
            Precedence::LogicalOr => 7,
            Precedence::LogicalAnd => 8,
            Precedence::BitwiseOr => 9,
            Precedence::BitwiseXor => 10,
            Precedence::BitwiseAnd => 11,
            Precedence::Equals => 12,
            Precedence::Compare => 13,
            Precedence::Shift => 14,
            Precedence::Add => 15,
            Precedence::Multiply => 16,
            Precedence::Exponentiation => 17,
            Precedence::Prefix => 18,
            Precedence::Postfix => 19,
            Precedence::New => 20,
            Precedence::Call => 21,
            Precedence::Member => 22,
        }
    }

    /// The position of the class: a larger rank binds tighter.
    pub fn rank(self) -> (rank: u8)
        ensures
            rank == self.spec_rank(),
            rank <= 22,
    {
        match self {
            Precedence::Lowest => 0,
            Precedence::Comma => 1,
            Precedence::Spread => 2,
            Precedence::Yield => 3,
            Precedence::Assign => 4,
            Precedence::Conditional => 5,
            Precedence::NullishCoalescing => 6,
            Precedence::LogicalOr => 7,
            Precedence::LogicalAnd => 8,
            Precedence::BitwiseOr => 9,
            Precedence::BitwiseXor => 10,
            Precedence::BitwiseAnd => 11,
            Precedence::Equals => 12,
            Precedence::Compare => 13,
            Precedence::Shift => 14,
            Precedence::Add => 15,
            Precedence::Multiply => 16,
            Precedence::Exponentiation => 17,
            Precedence::Prefix => 18,
            Precedence::Postfix => 19,
            Precedence::New => 20,
            Precedence::Call => 21,
            Precedence::Member => 22,
        }
    }

    /// Whether operators of this class group from the right: `a ** b ** c`
    /// means `a ** (b ** c)`.
    pub open spec fn spec_is_right_associative(self) -> bool {
        self is Exponentiation || self is Conditional || self is Assign
    }

    /// Whether operators of this class group from the right.
    #[verifier::when_used_as_spec(spec_is_right_associative)]
    pub fn is_right_associative(self) -> (right: bool)
        ensures
            right == self.spec_is_right_associative(),
    {
        matches!(self, Precedence::Exponentiation | Precedence::Conditional | Precedence::Assign)
    }

    /// Whether operators of this class group from the left.
    pub open spec fn spec_is_left_associative(self) -> bool {
        !self.spec_is_right_associative()
    }

    /// Whether operators of this class group from the left.
    #[verifier::when_used_as_spec(spec_is_left_associative)]
    pub fn is_left_associative(self) -> (left: bool)
        ensures
            left == self.spec_is_left_associative(),
    {
        !self.is_right_associative()
    }

    /// The classes of `|`, `^` and `&`.
    pub open spec fn spec_is_bitwise(self) -> bool {
        self is BitwiseOr || self is BitwiseXor || self is BitwiseAnd
    }

    /// Whether this is the class of `|`, of `^` or of `&`.
    #[verifier::when_used_as_spec(spec_is_bitwise)]
    pub fn is_bitwise(self) -> (bitwise: bool)
        ensures
            bitwise == self.spec_is_bitwise(),
    {
        matches!(self, Precedence::BitwiseOr | Precedence::BitwiseXor | Precedence::BitwiseAnd)
    }

    /// The class of `<<`, `>>` and `>>>`.
    pub open spec fn spec_is_shift(self) -> bool {
        self is Shift
    }

    /// Whether this is the class of the shift operators.
    #[verifier::when_used_as_spec(spec_is_shift)]
    pub fn is_shift(self) -> (shift: bool)
        ensures
            shift == self.spec_is_shift(),
    {
        matches!(self, Precedence::Shift)
    }

    /// The class of `+` and `-`.
    pub open spec fn spec_is_additive(self) -> bool {
        self is Add
    }

    /// Whether this is the class of `+` and `-`.
    #[verifier::when_used_as_spec(spec_is_additive)]
    pub fn is_additive(self) -> (additive: bool)
        ensures
            additive == self.spec_is_additive(),
    {
        matches!(self, Precedence::Add)
    }
}

impl BinaryOperator {
    /// The precedence class of the operator.
    pub open spec fn spec_precedence(self) -> Precedence {
        match self {
            BinaryOperator::BitwiseOR => Precedence::BitwiseOr,
            BinaryOperator::BitwiseXOR => Precedence::BitwiseXor,
            BinaryOperator::BitwiseAnd => Precedence::BitwiseAnd,
            BinaryOperator::Equality
            | BinaryOperator::Inequality
            | BinaryOperator::StrictEquality
            | BinaryOperator::StrictInequality => Precedence::Equals,
            BinaryOperator::LessThan
            | BinaryOperator::LessEqualThan
            | BinaryOperator::GreaterThan
            | BinaryOperator::GreaterEqualThan
            | BinaryOperator::Instanceof
            | BinaryOperator::In => Precedence::Compare,
            BinaryOperator::ShiftLeft
            | BinaryOperator::ShiftRight
            | BinaryOperator::ShiftRightZeroFill => Precedence::Shift,
            BinaryOperator::Subtraction | BinaryOperator::Addition => Precedence::Add,
            BinaryOperator::Multiplication
            | BinaryOperator::Remainder
            | BinaryOperator::Division => Precedence::Multiply,
            BinaryOperator::Exponential => Precedence::Exponentiation,
        }
    }

    /// The precedence class of the operator.
    #[verifier::when_used_as_spec(spec_precedence)]
    pub fn precedence(self) -> (class: Precedence)
        ensures
            class == self.spec_precedence(),
    {
        match self {
            BinaryOperator::BitwiseOR => Precedence::BitwiseOr,
            BinaryOperator::BitwiseXOR => Precedence::BitwiseXor,
            BinaryOperator::BitwiseAnd => Precedence::BitwiseAnd,
            BinaryOperator::Equality
            | BinaryOperator::Inequality
            | BinaryOperator::StrictEquality
            | BinaryOperator::StrictInequality => Precedence::Equals,
            BinaryOperator::LessThan
            | BinaryOperator::LessEqualThan
            | BinaryOperator::GreaterThan
            | BinaryOperator::GreaterEqualThan
            | BinaryOperator::Instanceof
            | BinaryOperator::In => Precedence::Compare,
            BinaryOperator::ShiftLeft
            | BinaryOperator::ShiftRight
            | BinaryOperator::ShiftRightZeroFill => Precedence::Shift,
            BinaryOperator::Subtraction | BinaryOperator::Addition => Precedence::Add,
            BinaryOperator::Multiplication
            | BinaryOperator::Remainder
            | BinaryOperator::Division => Precedence::Multiply,
            BinaryOperator::Exponential => Precedence::Exponentiation,
        }
    }

    /// `in` and `instanceof`.
    pub open spec fn spec_is_relational(self) -> bool {
        self is In || self is Instanceof
    }

    /// Whether the operator is `in` or `instanceof`.
    #[verifier::when_used_as_spec(spec_is_relational)]
    pub fn is_relational(self) -> (relational: bool)
        ensures
            relational == self.spec_is_relational(),
    {
        matches!(self, BinaryOperator::In | BinaryOperator::Instanceof)
    }

    /// `in`.
    pub open spec fn spec_is_in(self) -> bool {
        self is In
    }

    /// Whether the operator is `in`.
    #[verifier::when_used_as_spec(spec_is_in)]
    pub fn is_in(self) -> (is_in: bool)
        ensures
            is_in == self.spec_is_in(),
    {
        matches!(self, BinaryOperator::In)
    }

    /// `%`.
    pub open spec fn spec_is_remainder(self) -> bool {
        self is Remainder
    }

    /// Whether the operator is `%`.
    #[verifier::when_used_as_spec(spec_is_remainder)]
    pub fn is_remainder(self) -> (remainder: bool)
        ensures
            remainder == self.spec_is_remainder(),
    {
        matches!(self, BinaryOperator::Remainder)
    }

    /// `==` and `!=`, the comparisons that coerce their operands.
    pub open spec fn spec_is_loose_equality(self) -> bool {
        self is Equality || self is Inequality
    }

    /// Whether the operator is `==` or `!=`.
    #[verifier::when_used_as_spec(spec_is_loose_equality)]
    pub fn is_loose_equality(self) -> (loose: bool)
        ensures
            loose == self.spec_is_loose_equality(),
    {
        matches!(self, BinaryOperator::Equality | BinaryOperator::Inequality)
    }

    /// The operator as it is written in source text.
    pub open spec fn spec_as_str(self) -> Seq<char> {
        match self {
            BinaryOperator::Equality => "=="@,
            BinaryOperator::Inequality => "!="@,
            BinaryOperator::StrictEquality => "==="@,
            BinaryOperator::StrictInequality => "!=="@,
            BinaryOperator::LessThan => "<"@,
            BinaryOperator::LessEqualThan => "<="@,
            BinaryOperator::GreaterThan => ">"@,
            BinaryOperator::GreaterEqualThan => ">="@,
            BinaryOperator::Addition => "+"@,
            BinaryOperator::Subtraction => "-"@,
            BinaryOperator::Multiplication => "*"@,
            BinaryOperator::Division => "/"@,
            BinaryOperator::Remainder => "%"@,
            BinaryOperator::Exponential => "**"@,
            BinaryOperator::ShiftLeft => "<<"@,
            BinaryOperator::ShiftRight => ">>"@,
            BinaryOperator::ShiftRightZeroFill => ">>>"@,
            BinaryOperator::BitwiseOR => "|"@,
            BinaryOperator::BitwiseXOR => "^"@,
            BinaryOperator::BitwiseAnd => "&"@,
            BinaryOperator::In => "in"@,
            BinaryOperator::Instanceof => "instanceof"@,
        }
    }

    /// The operator as it is written in source text.
    pub fn as_str(self) -> (text: &'static str)
        ensures
            text@ == self.spec_as_str(),
    {
        match self {
            BinaryOperator::Equality => "==",
            BinaryOperator::Inequality => "!=",
            BinaryOperator::StrictEquality => "===",
            BinaryOperator::StrictInequality => "!==",
            BinaryOperator::LessThan => "<",
            BinaryOperator::LessEqualThan => "<=",
            BinaryOperator::GreaterThan => ">",
            BinaryOperator::GreaterEqualThan => ">=",
            BinaryOperator::Addition => "+",
            BinaryOperator::Subtraction => "-",
            BinaryOperator::Multiplication => "*",
            BinaryOperator::Division => "/",
            BinaryOperator::Remainder => "%",
            BinaryOperator::Exponential => "**",
            BinaryOperator::ShiftLeft => "<<",
            BinaryOperator::ShiftRight => ">>",
            BinaryOperator::ShiftRightZeroFill => ">>>",
            BinaryOperator::BitwiseOR => "|",
            BinaryOperator::BitwiseXOR => "^",
            BinaryOperator::BitwiseAnd => "&",
            BinaryOperator::In => "in",
            BinaryOperator::Instanceof => "instanceof",
        }
    }
}

impl LogicalOperator {
    /// The precedence class of the operator.
    pub open spec fn spec_precedence(self) -> Precedence {
        match self {
            LogicalOperator::Or => Precedence::LogicalOr,
            LogicalOperator::And => Precedence::LogicalAnd,
            LogicalOperator::Coalesce => Precedence::NullishCoalescing,
        }
    }

    /// The precedence class of the operator.
    #[verifier::when_used_as_spec(spec_precedence)]
    pub fn precedence(self) -> (class: Precedence)
        ensures
            class == self.spec_precedence(),
    {
        match self {
            LogicalOperator::Or => Precedence::LogicalOr,
            LogicalOperator::And => Precedence::LogicalAnd,
            LogicalOperator::Coalesce => Precedence::NullishCoalescing,
        }
    }

    /// `??`.
    pub open spec fn spec_is_coalesce(self) -> bool {
        self is Coalesce
    }

    /// Whether the operator is `??`.
    #[verifier::when_used_as_spec(spec_is_coalesce)]
    pub fn is_coalesce(self) -> (coalesce: bool)
        ensures
            coalesce == self.spec_is_coalesce(),
    {
        matches!(self, LogicalOperator::Coalesce)
    }
}

/// The operator of a binary or of a logical expression.
#[derive(Clone, Copy, Debug, PartialEq, Eq, Structural)]
pub enum BinaryLikeOperator {
    Binary(BinaryOperator),
    Logical(LogicalOperator),
}

impl BinaryLikeOperator {
    /// The precedence class of the operator.
    pub open spec fn spec_precedence(self) -> Precedence {
        match self {
            BinaryLikeOperator::Binary(op) => op.spec_precedence(),
            BinaryLikeOperator::Logical(op) => op.spec_precedence(),
        }
    }

    /// The precedence class of the operator.
    #[verifier::when_used_as_spec(spec_precedence)]
    pub fn precedence(self) -> (class: Precedence)
        ensures
            class == self.spec_precedence(),
    {
        match self {
            BinaryLikeOperator::Binary(op) => op.precedence(),
            BinaryLikeOperator::Logical(op) => op.precedence(),
        }
    }

    /// `%`.
    pub open spec fn spec_is_remainder(self) -> bool {
        self == BinaryLikeOperator::Binary(BinaryOperator::Remainder)
    }

    /// Whether the operator is `%`.
    #[verifier::when_used_as_spec(spec_is_remainder)]
    pub fn is_remainder(self) -> (remainder: bool)
        ensures
            remainder == self.spec_is_remainder(),
    {
        match self {
            BinaryLikeOperator::Binary(op) => op.is_remainder(),
            BinaryLikeOperator::Logical(_) => false,
        }
    }
}

/// Two operators of one class are flatten-compatible when a chain of them
/// reads unambiguously without parentheses: `a + b - c`, `a && b && c`,
/// `a * b * c`. Operators of different classes never are; neither are two
/// exponentiations, two equalities, two shifts, nor products that mix `*`,
/// `/` and `%`.
pub open spec fn spec_should_flatten(parent: BinaryLikeOperator, operator: BinaryLikeOperator) -> bool {
    let class = operator.spec_precedence();
    &&& class == parent.spec_precedence()
    &&& !(class is Exponentiation)
    &&& !(class is Equals)
    &&& !(class is Shift)
    &&& (class is Multiply ==> parent == operator && !operator.spec_is_remainder())
}

/// Whether an expression with `operator` may stand unparenthesized directly
/// under one with `parent`.
#[verifier::when_used_as_spec(spec_should_flatten)]
pub fn should_flatten(parent: BinaryLikeOperator, operator: BinaryLikeOperator) -> (flatten: bool)
    ensures
        flatten == spec_should_flatten(parent, operator),
{
    let class = operator.precedence();
    if class != parent.precedence() {
        return false;
    }
    match class {
        Precedence::Exponentiation => false,
        Precedence::Equals => false,
        Precedence::Shift => false,
        Precedence::Multiply => {
            if parent.is_remainder() || operator.is_remainder() {
                false
            } else {
                parent == operator
            }
        },
        _ => true,
    }
}

/// Flattening never crosses a precedence class.
pub proof fn lemma_flatten_same_class(parent: BinaryLikeOperator, operator: BinaryLikeOperator)
    requires
        spec_should_flatten(parent, operator),
    ensures
        parent.spec_precedence() == operator.spec_precedence(),
{
}

/// Flatten-compatibility does not depend on which operator is the parent.
pub proof fn lemma_flatten_symmetric(parent: BinaryLikeOperator, operator: BinaryLikeOperator)
    ensures
        spec_should_flatten(parent, operator) == spec_should_flatten(operator, parent),
{
}

/// A right-associative class is never flattened: its grouping is kept
/// visible by the right operand's own rule.
pub proof fn lemma_right_associative_never_flattens(
    parent: BinaryLikeOperator,
    operator: BinaryLikeOperator,
)
    requires
        operator.spec_precedence().spec_is_right_associative(),
    ensures
        !spec_should_flatten(parent, operator),
{
}

} // verus!
