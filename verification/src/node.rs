//! The nodes of a program tree: expressions, statements, declarations,
//! patterns, match arms, blocks and items, each with the facts that name
//! resolution, type checking and constant folding attached to it.

use vstd::prelude::*;
use crate::span::Span;
use crate::ty::Ty;

verus! {

#[derive(Clone, Copy, Debug, PartialEq, Eq, Structural)]
pub enum Mutability {
    Mutable,
    Immutable,
}

#[derive(Clone, Copy, Debug, PartialEq, Eq, Structural)]
pub enum RangeLimits {
    /// `a..b`
    HalfOpen,
    /// `a...b`
    Closed,
}

/// Where a `match` expression came from.
#[derive(Clone, Copy, Debug, PartialEq, Eq, Structural)]
pub enum MatchSource {
    Normal,
    IfLetDesugar { contains_else_clause: bool },
    WhileLetDesugar,
    ForLoopDesugar,
    TryDesugar,
}

#[derive(Clone, Copy, Debug, PartialEq, Eq, Structural)]
pub enum BinOp {
    Add,
    Sub,
    Mul,
    Div,
    Rem,
    And,
    Or,
    BitXor,
    BitAnd,
    BitOr,
    Shl,
    Shr,
    Eq,
    Lt,
    Le,
    Ne,
    Ge,
    Gt,
}

#[derive(Clone, Copy, Debug, PartialEq, Eq, Structural)]
pub enum BindingMode {
    ByRef(Mutability),
    ByValue(Mutability),
}

/// What a path resolves to. A local variable and a captured variable are
/// known by the identity of the pattern that declares them.
#[derive(Clone, Copy, Debug, PartialEq, Eq, Structural)]
pub enum Def {
    Local(u32),
    Upvar(u32),
    Static,
    Const,
    Other,
    Unresolved,
}

/// A literal as written.
#[derive(Clone, Debug, PartialEq, Eq)]
pub enum Lit {
    Int(u64),
    Bool(bool),
    Str(String),
    Other,
}

/// The value that constant folding gave to an expression.
#[derive(Clone, Debug, PartialEq, Eq)]
pub enum ConstVal {
    Integral(i128),
    Bool(bool),
    Str(String),
    Other,
}

/// The two forms of the `vec!` macro.
#[derive(Clone, Copy, Debug, PartialEq, Eq, Structural)]
pub enum VecArgs {
    /// `vec![elem; len]`: the children are `elem` and `len`.
    Repeat,
    /// `vec![a, b, c]`: the children are the elements.
    Vec,
}

/// The kinds of expression. Sub-expressions are the node's children, in
/// source order; each variant says which.
#[derive(Debug, PartialEq, Eq)]
pub enum ExprKind {
    /// A path, each segment by name; `qself` is set for `<T as Trait>::f`.
    Path { qself: bool, segments: Vec<String>, res: Def },
    Lit(Lit),
    /// `seq[idx]`: children `seq`, `idx`.
    Index,
    /// `recv.name(args)`: children `recv`, then the arguments. `trait_path`
    /// is the trait that declares the method, `impl_path` the impl that
    /// holds it, for a method that has one.
    MethodCall { name: String, trait_path: Option<String>, impl_path: Option<String> },
    /// `f(args)`: children `f`, then the arguments.
    Call,
    /// Children: the scrutinee, then the arms.
    Match(MatchSource),
    /// Children: the condition, the block, then the `else` expression if
    /// there is one.
    If,
    /// `loop { .. }`: one child, the block.
    Loop,
    /// `while cond { .. }`: children `cond`, block.
    While,
    /// `for pat in arg { body }`: children `pat`, `arg`, `body`.
    ForLoop,
    /// A range literal: the children are the bounds that are present.
    Range { limits: RangeLimits, has_start: bool, has_end: bool },
    /// A block in expression position: one child, the block.
    Block,
    Break { labelled: bool },
    /// `return`, with the returned expression as its child if there is one.
    Ret,
    /// `lhs = rhs`: children `lhs`, `rhs`.
    Assign,
    /// `lhs op= rhs`: children `lhs`, `rhs`.
    AssignOp(BinOp),
    Binary(BinOp),
    Unary,
    /// `&e` or `&mut e`: one child.
    AddrOf(Mutability),
    BoxExpr,
    Cast,
    TypeAscription,
    Tup,
    /// A closure: one child, its body block.
    Closure,
    /// An expansion of `vec!`.
    VecMacro(VecArgs),
    Other,
}

#[derive(Clone, Copy, Debug, PartialEq, Eq, Structural)]
pub enum StmtKind {
    /// A declaration: one child, a `Decl` node.
    Decl,
    /// An expression without a trailing semicolon: one child.
    Expr,
    /// An expression with a trailing semicolon: one child.
    Semi,
}

#[derive(Clone, Copy, Debug, PartialEq, Eq, Structural)]
pub enum DeclKind {
    /// `let pat = init;`: children `pat`, then `init` if there is one.
    Local { has_init: bool },
    Item,
}

/// The kinds of pattern. Sub-patterns are children.
#[derive(Debug, PartialEq, Eq)]
pub enum PatKind {
    Wild,
    /// `name`, `ref name`, `name @ sub`: the child is `sub`, if any.
    Binding { mode: BindingMode, name: String, has_sub: bool },
    /// `Path(sub, ..)`, the path by its segments.
    TupleStruct { path: Vec<String> },
    /// A path to a constant or a unit variant, by its segments.
    Path { qself: bool, path: Vec<String> },
    Tuple,
    /// A literal: one child, the expression.
    Lit,
    /// `lo...hi`: children `lo`, `hi`.
    Range,
    Ref,
    Other,
}

#[derive(Debug, PartialEq, Eq)]
pub enum MetaItemKind {
    Word(String),
    List(String, Vec<NestedMetaItem>),
    NameValue(String, Lit),
}

#[derive(Debug, PartialEq, Eq)]
pub struct MetaItem {
    pub span: Span,
    pub kind: MetaItemKind,
}

#[derive(Debug, PartialEq, Eq)]
pub enum NestedMetaItemKind {
    MetaItem(MetaItem),
    Literal(Lit),
}

#[derive(Debug, PartialEq, Eq)]
pub struct NestedMetaItem {
    pub span: Span,
    pub kind: NestedMetaItemKind,
}

#[derive(Debug, PartialEq, Eq)]
pub struct Attribute {
    pub span: Span,
    pub is_sugared_doc: bool,
    pub value: MetaItem,
}

#[derive(Clone, Copy, Debug, PartialEq, Eq, Structural)]
pub enum ItemKind {
    /// A function: one child, its body block.
    Fn,
    ExternCrate,
    Use,
    /// A method in an impl: one child, its body block.
    ImplMethod,
    /// A method in a trait: its body block is the child, if it has one.
    TraitMethod { has_body: bool },
    Other,
}

/// What a node is.
#[derive(Debug, PartialEq, Eq)]
pub enum NodeKind {
    /// An expression, with its type, its type after adjustment if it was
    /// adjusted, and the value constant folding gave it, if any.
    Expr { kind: ExprKind, ty: Ty, adjusted: Option<Ty>, constant: Option<ConstVal> },
    Stmt(StmtKind),
    Decl(DeclKind),
    Pat(PatKind),
    /// A block: the children are its statements and then, if the last
    /// child is an expression, its trailing expression.
    Block,
    /// A match arm: children are `n_pats` patterns, the guard if
    /// `has_guard`, and the body.
    Arm { n_pats: usize, has_guard: bool },
    Item { item: ItemKind, name: String, attrs: Vec<Attribute> },
}

/// A node of the program tree.
#[derive(Debug, PartialEq, Eq)]
pub struct Node {
    /// The node's identity, which does not change between runs.
    pub id: u32,
    pub span: Span,
    pub kind: NodeKind,
}

impl Node {
    /// An expression of which nothing is known but its kind.
    pub fn expr(id: u32, span: Span, kind: ExprKind) -> (n: Node)
        ensures
            n == (Node { id, span, kind: NodeKind::Expr { kind, ty: Ty::Other, adjusted: None, constant: None } }),
    {
        Node { id, span, kind: NodeKind::Expr { kind, ty: Ty::Other, adjusted: None, constant: None } }
    }

    /// An expression with its type.
    pub fn typed(id: u32, span: Span, kind: ExprKind, ty: Ty) -> (n: Node)
        ensures
            n == (Node { id, span, kind: NodeKind::Expr { kind, ty, adjusted: None, constant: None } }),
    {
        Node { id, span, kind: NodeKind::Expr { kind, ty, adjusted: None, constant: None } }
    }

    /// An integer expression that folds to `value`.
    pub fn integral(id: u32, span: Span, kind: ExprKind, value: i128) -> (n: Node)
        ensures
            n == (Node {
                id,
                span,
                kind: NodeKind::Expr {
                    kind,
                    ty: Ty::Int,
                    adjusted: None,
                    constant: Some(ConstVal::Integral(value)),
                },
            }),
    {
        Node {
            id,
            span,
            kind: NodeKind::Expr { kind, ty: Ty::Int, adjusted: None, constant: Some(ConstVal::Integral(value)) },
        }
    }

    /// A pattern.
    pub fn pat(id: u32, span: Span, kind: PatKind) -> (n: Node)
        ensures
            n == (Node { id, span, kind: NodeKind::Pat(kind) }),
    {
        Node { id, span, kind: NodeKind::Pat(kind) }
    }

    /// A statement.
    pub fn stmt(id: u32, span: Span, kind: StmtKind) -> (n: Node)
        ensures
            n == (Node { id, span, kind: NodeKind::Stmt(kind) }),
    {
        Node { id, span, kind: NodeKind::Stmt(kind) }
    }

    /// A declaration.
    pub fn decl(id: u32, span: Span, kind: DeclKind) -> (n: Node)
        ensures
            n == (Node { id, span, kind: NodeKind::Decl(kind) }),
    {
        Node { id, span, kind: NodeKind::Decl(kind) }
    }

    /// A block.
    pub fn block(id: u32, span: Span) -> (n: Node)
        ensures
            n == (Node { id, span, kind: NodeKind::Block }),
    {
        Node { id, span, kind: NodeKind::Block }
    }

    /// A match arm with `n_pats` patterns.
    pub fn arm(id: u32, span: Span, n_pats: usize, has_guard: bool) -> (n: Node)
        ensures
            n == (Node { id, span, kind: NodeKind::Arm { n_pats, has_guard } }),
    {
        Node { id, span, kind: NodeKind::Arm { n_pats, has_guard } }
    }

    /// An item.
    pub fn item(id: u32, span: Span, item: ItemKind, name: String, attrs: Vec<Attribute>) -> (n: Node)
        ensures
            n == (Node { id, span, kind: NodeKind::Item { item, name, attrs } }),
    {
        Node { id, span, kind: NodeKind::Item { item, name, attrs } }
    }
}

} // verus!
