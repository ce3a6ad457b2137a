//! Suggested expressions: the source text of an expression together with
//! what is known of its outermost operator, so that a rewrite can wrap it
//! in parentheses where the text around it would otherwise bind tighter.

use vstd::prelude::*;
use vstd::string::*;
use crate::node::{BinOp, ExprKind};
use crate::query::{expr_kind, expr_kind_of, span_of};
use crate::source::{snippet, snippet_or, SourceMap};
use crate::tree::{Slot, Tree};

verus! {

/// The operators that can stand outermost in a suggested expression.
#[derive(Clone, Copy, Debug, PartialEq, Eq, Structural)]
pub enum AssocOp {
    Binary(BinOp),
    Assign,
    AssignOp,
    As,
    Colon,
}

/// How tightly an operator binds; a greater number binds tighter.
pub open spec fn precedence_spec(op: AssocOp) -> u8 {
    match op {
        AssocOp::As | AssocOp::Colon => 14,
        AssocOp::Binary(b) => match b {
            BinOp::Mul | BinOp::Div | BinOp::Rem => 13,
            BinOp::Add | BinOp::Sub => 12,
            BinOp::Shl | BinOp::Shr => 11,
            BinOp::BitAnd => 10,
            BinOp::BitXor => 9,
            BinOp::BitOr => 8,
            BinOp::Lt | BinOp::Gt | BinOp::Le | BinOp::Ge | BinOp::Eq | BinOp::Ne => 7,
            BinOp::And => 6,
            BinOp::Or => 5,
        },
        AssocOp::AssignOp => 3,
        AssocOp::Assign => 2,
    }
}

/// How tightly an operator binds.
pub fn precedence(op: AssocOp) -> (p: u8)
    ensures
        p == precedence_spec(op),
{
    match op {
        AssocOp::As => 14,
        AssocOp::Colon => 14,
        AssocOp::Binary(b) => match b {
            BinOp::Mul => 13,
            BinOp::Div => 13,
            BinOp::Rem => 13,
            BinOp::Add => 12,
            BinOp::Sub => 12,
            BinOp::Shl => 11,
            BinOp::Shr => 11,
            BinOp::BitAnd => 10,
            BinOp::BitXor => 9,
            BinOp::BitOr => 8,
            BinOp::Lt => 7,
            BinOp::Gt => 7,
            BinOp::Le => 7,
            BinOp::Ge => 7,
            BinOp::Eq => 7,
            BinOp::Ne => 7,
            BinOp::And => 6,
            BinOp::Or => 5,
        },
        AssocOp::AssignOp => 3,
        AssocOp::Assign => 2,
    }
}

#[derive(Clone, Copy, Debug, PartialEq, Eq, Structural)]
pub enum SuggKind {
    /// An expression that never needs parentheses.
    NonParen,
    /// An expression that needs parentheses where something is applied to
    /// it.
    MaybeParen,
    /// A binary operator expression.
    BinOp(AssocOp),
}

/// A suggested expression.
#[derive(Debug, PartialEq, Eq)]
pub struct Sugg {
    pub kind: SuggKind,
    pub text: String,
}

pub struct SuggView {
    pub kind: SuggKind,
    pub text: Seq<char>,
}

impl View for Sugg {
    type V = SuggView;

    open spec fn view(&self) -> SuggView {
        SuggView { kind: self.kind, text: self.text@ }
    }
}

/// How an expression of the given kind is suggested: by its operator if it
/// is a binary expression, an assignment, a cast or a type ascription; as
/// maybe in need of parentheses if it is a reference, a `box`, a closure,
/// an `if`, a unary operation or a `match`; and else as never in need.
pub open spec fn sugg_kind_of(kind: Option<ExprKind>) -> SuggKind {
    match kind {
        Some(ExprKind::AddrOf(_)) | Some(ExprKind::BoxExpr) | Some(ExprKind::Closure) | Some(
            ExprKind::If,
        ) | Some(ExprKind::Unary) | Some(ExprKind::Match(_)) => SuggKind::MaybeParen,
        Some(ExprKind::Assign) => SuggKind::BinOp(AssocOp::Assign),
        Some(ExprKind::AssignOp(_)) => SuggKind::BinOp(AssocOp::AssignOp),
        Some(ExprKind::Binary(op)) => SuggKind::BinOp(AssocOp::Binary(op)),
        Some(ExprKind::Cast) => SuggKind::BinOp(AssocOp::As),
        Some(ExprKind::TypeAscription) => SuggKind::BinOp(AssocOp::Colon),
        _ => SuggKind::NonParen,
    }
}

/// The suggestion for the expression at `at`.
pub open spec fn sugg_of(src: Seq<char>, s: Seq<Slot>, at: int, default: Seq<char>) -> SuggView {
    SuggView { kind: sugg_kind_of(expr_kind_of(s, at)), text: snippet_or(src, span_of(s, at), default) }
}

/// `text` in parentheses.
pub open spec fn parenthesized(text: Seq<char>) -> Seq<char> {
    "("@ + text + ")"@
}

/// The suggestion with parentheses around it if it may need them.
pub open spec fn maybe_par_spec(v: SuggView) -> SuggView {
    match v.kind {
        SuggKind::NonParen => v,
        _ => SuggView { kind: SuggKind::NonParen, text: parenthesized(v.text) },
    }
}

/// Whether the left operand `kind` of an addition needs parentheses: it
/// does if it is a binary expression that binds no tighter than `+` and is
/// not itself an addition.
pub open spec fn left_of_add_needs_paren(kind: SuggKind) -> bool {
    match kind {
        SuggKind::BinOp(op) => op != AssocOp::Binary(BinOp::Add) && precedence_spec(op) <= 12,
        _ => false,
    }
}

/// The suggestion `v + 1`.
pub open spec fn plus_one_spec(v: SuggView) -> SuggView {
    SuggView {
        kind: SuggKind::BinOp(AssocOp::Binary(BinOp::Add)),
        text: (if left_of_add_needs_paren(v.kind) {
            parenthesized(v.text)
        } else {
            v.text
        }) + " + 1"@,
    }
}

/// The suggestion with the prefix operator `op` applied.
pub open spec fn unop_spec(op: Seq<char>, v: SuggView) -> SuggView {
    SuggView { kind: SuggKind::MaybeParen, text: op + maybe_par_spec(v).text }
}

fn in_parens(text: &str) -> (r: String)
    ensures
        r@ == parenthesized(text@),
{
    let mut r = String::from_str("(");
    r.append(text);
    r.append(")");
    r
}

impl Sugg {
    /// The suggestion for the expression at `at`, with `default` as its
    /// text where the source has none.
    pub fn hir(source: &SourceMap, tree: &Tree, at: usize, default: &str) -> (r: Sugg)
        requires
            at < tree@.len(),
        ensures
            r@ == sugg_of(source.src@, tree@, at as int, default@),
    {
        let text = snippet(source, tree.node(at).span, default);
        let kind = match expr_kind(tree, at) {
            Some(ExprKind::AddrOf(_)) => SuggKind::MaybeParen,
            Some(ExprKind::BoxExpr) => SuggKind::MaybeParen,
            Some(ExprKind::Closure) => SuggKind::MaybeParen,
            Some(ExprKind::If) => SuggKind::MaybeParen,
            Some(ExprKind::Unary) => SuggKind::MaybeParen,
            Some(ExprKind::Match(_)) => SuggKind::MaybeParen,
            Some(ExprKind::Assign) => SuggKind::BinOp(AssocOp::Assign),
            Some(ExprKind::AssignOp(_)) => SuggKind::BinOp(AssocOp::AssignOp),
            Some(ExprKind::Binary(op)) => SuggKind::BinOp(AssocOp::Binary(*op)),
            Some(ExprKind::Cast) => SuggKind::BinOp(AssocOp::As),
            Some(ExprKind::TypeAscription) => SuggKind::BinOp(AssocOp::Colon),
            _ => SuggKind::NonParen,
        };
        Sugg { kind, text }
    }

    /// Adds parentheses if the suggestion may need them.
    pub fn maybe_par(self) -> (r: Sugg)
        ensures
            r@ == maybe_par_spec(self@),
    {
        match self.kind {
            SuggKind::NonParen => self,
            _ => Sugg { kind: SuggKind::NonParen, text: in_parens(self.text.as_str()) },
        }
    }

    /// The suggestion for `self + 1`, the text of `self` kept as it is.
    pub fn plus_one(self) -> (r: Sugg)
        ensures
            r@ == plus_one_spec(self@),
    {
        let paren = match self.kind {
            SuggKind::BinOp(op) => {
                let is_add = match op {
                    AssocOp::Binary(BinOp::Add) => true,
                    _ => false,
                };
                !is_add && precedence(op) <= 12
            },
            _ => false,
        };
        let mut text = if paren {
            in_parens(self.text.as_str())
        } else {
            self.text
        };
        text.append(" + 1");
        Sugg { kind: SuggKind::BinOp(AssocOp::Binary(BinOp::Add)), text }
    }

    /// The suggestion for `!self`.
    pub fn not(self) -> (r: Sugg)
        ensures
            r@ == unop_spec("!"@, self@),
    {
        let inner = self.maybe_par();
        let mut text = String::from_str("!");
        text.append(inner.text.as_str());
        Sugg { kind: SuggKind::MaybeParen, text }
    }

    /// The suggestion for `*self`.
    pub fn deref(self) -> (r: Sugg)
        ensures
            r@ == unop_spec("*"@, self@),
    {
        let inner = self.maybe_par();
        let mut text = String::from_str("*");
        text.append(inner.text.as_str());
        Sugg { kind: SuggKind::MaybeParen, text }
    }
}

} // verus!
