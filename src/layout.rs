//! Well-formed trees: which children each node kind has.
use vstd::prelude::*;
use crate::syntax::{ComprehensionKind, ExpressionType, Node, NodeKind, Program, StatementType, VarargsKind};

verus! {

/// What a child stands for in its parent's layout.
pub enum Role {
    Expression,
    Statement,
    Keyword,
    DictEntry,
    ComprehensionKind,
    Generator,
    WithItem,
    ExceptHandler,
    Parameters,
    Parameter,
    Varargs,
    StringPart,
    /// A list: a group whose children all play the inner role.
    Group(Box<Role>),
    /// An optional part: a slot with at most one child, playing the inner
    /// role.
    Slot(Box<Role>),
}

/// A group of children playing `r`.
pub open spec fn group(r: Role) -> Role {
    Role::Group(Box::new(r))
}

/// An optional child playing `r`.
pub open spec fn slot(r: Role) -> Role {
    Role::Slot(Box::new(r))
}

/// The node `n` plays role `r` in its parent.
pub open spec fn plays(n: Node, r: Role) -> bool
    decreases r,
{
    match r {
        Role::Expression => n.kind is Expression,
        Role::Statement => n.kind is Statement,
        Role::Keyword => n.kind is Keyword,
        Role::DictEntry => n.kind is DictEntry,
        Role::ComprehensionKind => n.kind is ComprehensionKind,
        Role::Generator => n.kind is Generator,
        Role::WithItem => n.kind is WithItem,
        Role::ExceptHandler => n.kind is ExceptHandler,
        Role::Parameters => n.kind is Parameters,
        Role::Parameter => n.kind is Parameter,
        Role::Varargs => n.kind is Varargs,
        Role::StringPart => n.kind is StringConstant || n.kind is FormattedValue
            || n.kind is JoinedString,
        Role::Group(inner) => n.kind is Group && forall|i: int|
            0 <= i < n.children.len() ==> plays(#[trigger] n.children@[i], *inner),
        Role::Slot(inner) => n.kind is Slot && n.children.len() <= 1 && forall|i: int|
            0 <= i < n.children.len() ==> plays(#[trigger] n.children@[i], *inner),
    }
}

/// The roles of the children of an expression node, in order.
pub open spec fn expression_layout(e: ExpressionType) -> Seq<Role> {
    match e {
        ExpressionType::BoolOp { .. } => seq![group(Role::Expression)],
        ExpressionType::Binop { .. } => seq![Role::Expression, Role::Expression],
        ExpressionType::Subscript => seq![Role::Expression, Role::Expression],
        ExpressionType::Unop { .. } => seq![Role::Expression],
        ExpressionType::Await => seq![Role::Expression],
        ExpressionType::Yield => seq![slot(Role::Expression)],
        ExpressionType::YieldFrom => seq![Role::Expression],
        ExpressionType::Compare { .. } => seq![group(Role::Expression)],
        ExpressionType::Attribute { .. } => seq![Role::Expression],
        ExpressionType::Call => seq![
            Role::Expression,
            group(Role::Expression),
            group(Role::Keyword),
        ],
        ExpressionType::Number { .. } => seq![],
        ExpressionType::List => seq![group(Role::Expression)],
        ExpressionType::Tuple => seq![group(Role::Expression)],
        ExpressionType::Dict => seq![group(Role::DictEntry)],
        ExpressionType::SetDisplay => seq![group(Role::Expression)],
        ExpressionType::Comprehension => seq![Role::ComprehensionKind, group(Role::Generator)],
        ExpressionType::Starred => seq![Role::Expression],
        ExpressionType::Slice => seq![group(Role::Expression)],
        ExpressionType::String => seq![Role::StringPart],
        ExpressionType::Bytes { .. } => seq![],
        ExpressionType::Identifier { .. } => seq![],
        ExpressionType::Lambda => seq![Role::Parameters, Role::Expression],
        ExpressionType::IfExpression => seq![Role::Expression, Role::Expression, Role::Expression],
        ExpressionType::NamedExpression => seq![Role::Expression, Role::Expression],
        ExpressionType::True => seq![],
        ExpressionType::False => seq![],
        ExpressionType::NoneConstant => seq![],
        ExpressionType::Ellipsis => seq![],
    }
}

/// The roles of the children of a statement node, in order.
pub open spec fn statement_layout(s: StatementType) -> Seq<Role> {
    match s {
        StatementType::Break => seq![],
        StatementType::Continue => seq![],
        StatementType::Return => seq![slot(Role::Expression)],
        StatementType::Import { .. } => seq![],
        StatementType::ImportFrom { .. } => seq![],
        StatementType::Pass => seq![],
        StatementType::Assert => seq![Role::Expression, slot(Role::Expression)],
        StatementType::Delete => seq![group(Role::Expression)],
        StatementType::Assign => seq![group(Role::Expression), Role::Expression],
        StatementType::AugAssign { .. } => seq![Role::Expression, Role::Expression],
        StatementType::AnnAssign => seq![
            Role::Expression,
            Role::Expression,
            slot(Role::Expression),
        ],
        StatementType::Expression => seq![Role::Expression],
        StatementType::Global { .. } => seq![],
        StatementType::Nonlocal { .. } => seq![],
        StatementType::If => seq![
            Role::Expression,
            group(Role::Statement),
            slot(group(Role::Statement)),
        ],
        StatementType::While => seq![
            Role::Expression,
            group(Role::Statement),
            slot(group(Role::Statement)),
        ],
        StatementType::With { .. } => seq![group(Role::WithItem), group(Role::Statement)],
        StatementType::For { .. } => seq![
            Role::Expression,
            Role::Expression,
            group(Role::Statement),
            slot(group(Role::Statement)),
        ],
        StatementType::Raise => seq![slot(Role::Expression), slot(Role::Expression)],
        StatementType::Try => seq![
            group(Role::Statement),
            group(Role::ExceptHandler),
            slot(group(Role::Statement)),
            slot(group(Role::Statement)),
        ],
        StatementType::ClassDef { .. } => seq![
            group(Role::Statement),
            group(Role::Expression),
            group(Role::Keyword),
            group(Role::Expression),
        ],
        StatementType::FunctionDef { .. } => seq![
            Role::Parameters,
            group(Role::Statement),
            group(Role::Expression),
            slot(Role::Expression),
        ],
    }
}

/// The roles of the children of a node of kind `k`; a group or a slot takes
/// its children's roles from its parent.
pub open spec fn layout(k: NodeKind) -> Option<Seq<Role>> {
    match k {
        NodeKind::Expression(e) => Some(expression_layout(e)),
        NodeKind::Statement(s) => Some(statement_layout(s)),
        NodeKind::Group => None,
        NodeKind::Slot => None,
        NodeKind::Keyword { .. } => Some(seq![Role::Expression]),
        NodeKind::DictEntry => Some(seq![slot(Role::Expression), Role::Expression]),
        NodeKind::ComprehensionKind(ComprehensionKind::Dict) => Some(
            seq![Role::Expression, Role::Expression],
        ),
        NodeKind::ComprehensionKind(_) => Some(seq![Role::Expression]),
        NodeKind::Generator { .. } => Some(
            seq![Role::Expression, Role::Expression, group(Role::Expression)],
        ),
        NodeKind::WithItem => Some(seq![Role::Expression, slot(Role::Expression)]),
        NodeKind::ExceptHandler { .. } => Some(
            seq![slot(Role::Expression), group(Role::Statement)],
        ),
        NodeKind::Parameters { .. } => Some(
            seq![
                group(Role::Parameter),
                group(Role::Parameter),
                Role::Varargs,
                Role::Varargs,
                group(Role::Expression),
                group(slot(Role::Expression)),
            ],
        ),
        NodeKind::Parameter { .. } => Some(seq![slot(Role::Expression)]),
        NodeKind::Varargs(VarargsKind::Named) => Some(seq![Role::Parameter]),
        NodeKind::Varargs(_) => Some(seq![]),
        NodeKind::StringConstant { .. } => Some(seq![]),
        NodeKind::FormattedValue { .. } => Some(seq![Role::Expression, slot(Role::StringPart)]),
        NodeKind::JoinedString => Some(seq![group(Role::StringPart)]),
    }
}

/// The node's own children follow the layout of its kind.
pub open spec fn follows_layout(n: Node) -> bool {
    match layout(n.kind) {
        Some(roles) => n.children.len() == roles.len() && forall|i: int|
            0 <= i < roles.len() ==> plays(#[trigger] n.children@[i], roles[i]),
        None => true,
    }
}

/// Every node of the tree under `n` follows the layout of its kind.
pub open spec fn well_formed(n: Node) -> bool
    decreases n,
{
    &&& follows_layout(n)
    &&& forall|i: int| 0 <= i < n.children.len() ==> well_formed(#[trigger] n.children@[i])
}

/// Every tree of `s` is well formed.
pub open spec fn all_well_formed(s: Seq<Node>) -> bool {
    forall|i: int| 0 <= i < s.len() ==> well_formed(#[trigger] s[i])
}

/// A program's statements are statement nodes in well-formed trees.
pub open spec fn program_well_formed(p: Program) -> bool {
    &&& all_well_formed(p.statements@)
    &&& forall|i: int| 0 <= i < p.statements.len() ==> (#[trigger] p.statements@[i]).kind is Statement
}

} // verus!
