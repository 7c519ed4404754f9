//! The syntax tree that the engine works on.
//!
//! A tree is made of [`Node`]s. Each node has a kind and an ordered list of
//! children. The children of a node are its fields in declaration order:
//! a single expression or statement stands as one child; an optional field is
//! a [`NodeKind::Slot`] with zero or one child; a list field is a
//! [`NodeKind::Group`] whose children are the list's elements. Only nodes of
//! kind [`NodeKind::Expression`] are mutation targets and receive a
//! traversal index.
use vstd::prelude::*;

verus! {

/// Binary operators.
#[derive(Clone, Copy, Debug, PartialEq, Eq, Structural)]
pub enum OperatorSerde {
    Add,
    Sub,
    Mult,
    MatMult,
    Div,
    Mod,
    Pow,
    LShift,
    RShift,
    BitOr,
    BitXor,
    BitAnd,
    FloorDiv,
}

/// Comparison operators.
#[derive(Clone, Copy, Debug, PartialEq, Eq, Structural)]
pub enum ComparisonSerde {
    Equal,
    NotEqual,
    Less,
    LessOrEqual,
    Greater,
    GreaterOrEqual,
    In,
    NotIn,
    Is,
    IsNot,
}

/// Boolean operators (`and`, `or`).
#[derive(Clone, Copy, Debug, PartialEq, Eq, Structural)]
pub enum BooleanOperator {
    And,
    Or,
}

/// Unary operators.
#[derive(Clone, Copy, Debug, PartialEq, Eq, Structural)]
pub enum UnaryOperator {
    Pos,
    Neg,
    Not,
    Inv,
}

/// A numeric literal.
///
/// An integer is a sign and a magnitude in base 2^32 digits, least
/// significant first, with no trailing zero digit; zero has no digits and is
/// not negative. A float is held by its IEEE-754 binary64 bit pattern; a
/// complex literal by the bit patterns of its real and imaginary parts.
#[derive(Clone, Debug, PartialEq, Eq)]
pub enum NumberSerde {
    Integer { negative: bool, magnitude: Vec<u32> },
    Float { bits: u64 },
    Complex { real: u64, imag: u64 },
}

/// The value of a base 2^32 digit sequence, least significant digit first.
pub open spec fn digits_value(d: Seq<u32>) -> nat
    decreases d.len(),
{
    if d.len() == 0 {
        0
    } else {
        d[0] as nat + 0x1_0000_0000 * digits_value(d.skip(1))
    }
}

/// The integer value of a sign and magnitude.
pub open spec fn signed_value(negative: bool, magnitude: Seq<u32>) -> int {
    if negative {
        -(digits_value(magnitude) as int)
    } else {
        digits_value(magnitude) as int
    }
}

/// A canonical sign and magnitude: no trailing zero digit, and zero is not
/// negative.
pub open spec fn canonical(negative: bool, magnitude: Seq<u32>) -> bool {
    &&& magnitude.len() > 0 ==> magnitude.last() != 0
    &&& magnitude.len() == 0 ==> !negative
}

/// What a numeric literal stands for, with integers as mathematical integers.
pub enum NumberValue {
    Integer(int),
    Float(u64),
    Complex(u64, u64),
}

impl NumberSerde {
    /// The integer representation is canonical.
    pub open spec fn wf(&self) -> bool {
        match self {
            NumberSerde::Integer { negative, magnitude } => canonical(*negative, magnitude@),
            _ => true,
        }
    }

    /// What the literal stands for.
    pub open spec fn value(&self) -> NumberValue {
        match self {
            NumberSerde::Integer { negative, magnitude } => NumberValue::Integer(
                signed_value(*negative, magnitude@),
            ),
            NumberSerde::Float { bits } => NumberValue::Float(*bits),
            NumberSerde::Complex { real: re, imag: im } => NumberValue::Complex(*re, *im),
        }
    }
}

/// Conversion flag of a formatted value in a string.
#[derive(Clone, Copy, Debug, PartialEq, Eq, Structural)]
pub enum ConversionFlag {
    Str,
    Ascii,
    Repr,
}

/// The flavour of a comprehension. Its node has the element (or the key and
/// the value) as children.
#[derive(Clone, Copy, Debug, PartialEq, Eq, Structural)]
pub enum ComprehensionKind {
    GeneratorExpression,
    List,
    SetComprehension,
    Dict,
}

/// Expression node kinds, with the payload that is not a child.
///
/// Children, in order: `BoolOp` a group of values; `Binop` left, right;
/// `Subscript` value, index; `Unop`, `Await`, `YieldFrom`, `Starred`,
/// `Attribute` the operand; `Yield` a slot; `Compare` a group of operands;
/// `Call` function, group of arguments, group of keywords; `List`, `Tuple`,
/// `SetDisplay`, `Slice` a group of elements; `Dict` a group of dictionary entries;
/// `Comprehension` a comprehension-kind node, group of generators; `String`
/// a string part; `Lambda`
/// parameters, body; `IfExpression` test, body, orelse; `NamedExpression`
/// left, right; the others none.
#[derive(Debug)]
pub enum ExpressionType {
    BoolOp { op: BooleanOperator },
    Binop { op: OperatorSerde },
    Subscript,
    Unop { op: UnaryOperator },
    Await,
    Yield,
    YieldFrom,
    Compare { ops: Vec<ComparisonSerde> },
    Attribute { name: String },
    Call,
    Number { value: NumberSerde },
    List,
    Tuple,
    Dict,
    SetDisplay,
    Comprehension,
    Starred,
    Slice,
    String,
    Bytes { value: Vec<u8> },
    Identifier { name: String },
    Lambda,
    IfExpression,
    NamedExpression,
    True,
    False,
    NoneConstant,
    Ellipsis,
}

/// A name imported by an import statement.
#[derive(Clone, Debug)]
pub struct ImportSymbol {
    pub symbol: String,
    pub alias: Option<String>,
}

/// Statement node kinds, with the payload that is not a child.
///
/// Children, in order: `Return` a slot; `Assert` test, slot of message;
/// `Delete` a group of targets; `Assign` a group of targets, value;
/// `AugAssign` target, value; `AnnAssign` target, annotation, slot of value;
/// `Expression` the expression; `If`, `While` test, group of body, slot of a
/// group of orelse; `With` a group of with-items, group of body; `For`
/// target, iterable, group of body, slot of a group of orelse; `Raise` slot
/// of exception, slot of cause; `Try` group of body, group of handlers, slot
/// of a group of orelse, slot of a group of finalbody; `ClassDef` group of
/// body, group of bases, group of keywords, group of decorators;
/// `FunctionDef` parameters, group of body, group of decorators, slot of
/// returns; the others none.
#[derive(Clone, Debug)]
pub enum StatementType {
    Break,
    Continue,
    Return,
    Import { names: Vec<ImportSymbol> },
    ImportFrom { level: u64, module: Option<String>, names: Vec<ImportSymbol> },
    Pass,
    Assert,
    Delete,
    Assign,
    AugAssign { op: OperatorSerde },
    AnnAssign,
    Expression,
    Global { names: Vec<String> },
    Nonlocal { names: Vec<String> },
    If,
    While,
    With { is_async: bool },
    For { is_async: bool },
    Raise,
    Try,
    ClassDef { name: String },
    FunctionDef { is_async: bool, name: String },
}

/// A variadic parameter marker: absent, a bare `*`, or named (then the node
/// has that parameter as its child).
#[derive(Clone, Copy, Debug, PartialEq, Eq, Structural)]
pub enum VarargsKind {
    Absent,
    Unnamed,
    Named,
}

/// The kind of a syntax node.
///
/// Helper kinds and their children: `Group` the elements of a list;
/// `Slot` zero or one child; `Keyword` the value; `DictEntry` slot of key,
/// value; `ComprehensionKind` the element, or the key and the value;
/// `Generator` target, iterable, group of conditions; `WithItem` context
/// expression, slot of bound variables; `ExceptHandler` slot of type, group
/// of body; `Parameters` group of parameters, group of keyword-only
/// parameters, varargs, keyword varargs, group of defaults, group of slots of
/// keyword defaults; `Parameter` slot of annotation; `Varargs` the parameter
/// when named; `StringConstant` none; `FormattedValue` the formatted
/// expression, slot of a string part for the format spec; `JoinedString` a
/// group of string parts.
#[derive(Debug)]
pub enum NodeKind {
    Expression(ExpressionType),
    Statement(StatementType),
    Group,
    Slot,
    Keyword { name: Option<String> },
    DictEntry,
    ComprehensionKind(ComprehensionKind),
    Generator { is_async: bool },
    WithItem,
    ExceptHandler { name: Option<String> },
    Parameters { posonlyargs_count: u64 },
    Parameter { arg: String },
    Varargs(VarargsKind),
    StringConstant { value: String },
    FormattedValue { conversion: Option<ConversionFlag> },
    JoinedString,
}

/// Source position of a node.
#[derive(Clone, Copy, Debug, PartialEq, Eq, Structural)]
pub struct Location {
    pub row: u64,
    pub column: u64,
}

/// A syntax node.
#[derive(Debug)]
pub struct Node {
    pub location: Location,
    pub kind: NodeKind,
    pub children: Vec<Node>,
}

/// A whole program: its top-level statements.
#[derive(Debug)]
pub struct Program {
    pub statements: Vec<Node>,
}

} // verus!

verus! {

/// The display name of an expression kind, padded to a common width.
pub open spec fn expression_name(expr: ExpressionType) -> Seq<char> {
    match expr {
        ExpressionType::BoolOp { .. } => "BoolOp       "@,
        ExpressionType::Binop { .. } => "Binop        "@,
        ExpressionType::Subscript => "Subscript    "@,
        ExpressionType::Unop { .. } => "Unop         "@,
        ExpressionType::Await => "Await        "@,
        ExpressionType::Yield => "Yield        "@,
        ExpressionType::YieldFrom => "YieldFrom    "@,
        ExpressionType::Compare { .. } => "Compare      "@,
        ExpressionType::Attribute { .. } => "Attribute    "@,
        ExpressionType::Call => "Call         "@,
        ExpressionType::Number { .. } => "Number       "@,
        ExpressionType::List => "List         "@,
        ExpressionType::Tuple => "Tuple        "@,
        ExpressionType::Dict => "Dict         "@,
        ExpressionType::SetDisplay => "Set          "@,
        ExpressionType::Comprehension => "Comprehension"@,
        ExpressionType::Starred => "Starred      "@,
        ExpressionType::Slice => "Slice        "@,
        ExpressionType::String => "String       "@,
        ExpressionType::Bytes { .. } => "Bytes        "@,
        ExpressionType::Identifier { .. } => "Identifier   "@,
        ExpressionType::Lambda => "Lambda       "@,
        ExpressionType::IfExpression => "IfExpression "@,
        ExpressionType::NamedExpression => "NamedExpression"@,
        ExpressionType::True => "True         "@,
        ExpressionType::False => "False        "@,
        ExpressionType::NoneConstant => "None         "@,
        ExpressionType::Ellipsis => "Ellipsis     "@,
    }
}

/// The display name of an expression kind, padded to a common width.
pub fn stringify_expression(expr: &ExpressionType) -> (r: &'static str)
    ensures
        r@ == expression_name(*expr),
{
    match expr {
        ExpressionType::BoolOp { .. } => "BoolOp       ",
        ExpressionType::Binop { .. } => "Binop        ",
        ExpressionType::Subscript => "Subscript    ",
        ExpressionType::Unop { .. } => "Unop         ",
        ExpressionType::Await => "Await        ",
        ExpressionType::Yield => "Yield        ",
        ExpressionType::YieldFrom => "YieldFrom    ",
        ExpressionType::Compare { .. } => "Compare      ",
        ExpressionType::Attribute { .. } => "Attribute    ",
        ExpressionType::Call => "Call         ",
        ExpressionType::Number { .. } => "Number       ",
        ExpressionType::List => "List         ",
        ExpressionType::Tuple => "Tuple        ",
        ExpressionType::Dict => "Dict         ",
        ExpressionType::SetDisplay => "Set          ",
        ExpressionType::Comprehension => "Comprehension",
        ExpressionType::Starred => "Starred      ",
        ExpressionType::Slice => "Slice        ",
        ExpressionType::String => "String       ",
        ExpressionType::Bytes { .. } => "Bytes        ",
        ExpressionType::Identifier { .. } => "Identifier   ",
        ExpressionType::Lambda => "Lambda       ",
        ExpressionType::IfExpression => "IfExpression ",
        ExpressionType::NamedExpression => "NamedExpression",
        ExpressionType::True => "True         ",
        ExpressionType::False => "False        ",
        ExpressionType::NoneConstant => "None         ",
        ExpressionType::Ellipsis => "Ellipsis     ",
    }
}

/// The display name of a statement kind, padded to a common width.
pub open spec fn statement_name(stmt: StatementType) -> Seq<char> {
    match stmt {
        StatementType::Break => "Break      "@,
        StatementType::Continue => "Continue   "@,
        StatementType::Return => "Return     "@,
        StatementType::Import { .. } => "Import     "@,
        StatementType::ImportFrom { .. } => "ImportFrom "@,
        StatementType::Pass => "Pass       "@,
        StatementType::Assert => "Assert     "@,
        StatementType::Delete => "Delete     "@,
        StatementType::Assign => "Assign     "@,
        StatementType::AugAssign { .. } => "AugAssign  "@,
        StatementType::AnnAssign => "AnnAssign  "@,
        StatementType::Expression => "Expression "@,
        StatementType::Global { .. } => "Global     "@,
        StatementType::Nonlocal { .. } => "Nonlocal   "@,
        StatementType::If => "If         "@,
        StatementType::While => "While      "@,
        StatementType::With { .. } => "With       "@,
        StatementType::For { .. } => "For        "@,
        StatementType::Raise => "Raise      "@,
        StatementType::Try => "Try        "@,
        StatementType::ClassDef { .. } => "ClassDef   "@,
        StatementType::FunctionDef { .. } => "FunctionDef"@,
    }
}

/// The display name of a statement kind, padded to a common width.
pub fn stringify_statement(stmt: &StatementType) -> (r: &'static str)
    ensures
        r@ == statement_name(*stmt),
{
    match stmt {
        StatementType::Break => "Break      ",
        StatementType::Continue => "Continue   ",
        StatementType::Return => "Return     ",
        StatementType::Import { .. } => "Import     ",
        StatementType::ImportFrom { .. } => "ImportFrom ",
        StatementType::Pass => "Pass       ",
        StatementType::Assert => "Assert     ",
        StatementType::Delete => "Delete     ",
        StatementType::Assign => "Assign     ",
        StatementType::AugAssign { .. } => "AugAssign  ",
        StatementType::AnnAssign => "AnnAssign  ",
        StatementType::Expression => "Expression ",
        StatementType::Global { .. } => "Global     ",
        StatementType::Nonlocal { .. } => "Nonlocal   ",
        StatementType::If => "If         ",
        StatementType::While => "While      ",
        StatementType::With { .. } => "With       ",
        StatementType::For { .. } => "For        ",
        StatementType::Raise => "Raise      ",
        StatementType::Try => "Try        ",
        StatementType::ClassDef { .. } => "ClassDef   ",
        StatementType::FunctionDef { .. } => "FunctionDef",
    }
}

} // verus!
