//! Checks for `_.and_then(f)` on an `Option` where `f` only ever returns
//! `Some(_)`, so that `_.map(_)` would do.

use vstd::prelude::*;
use crate::attrs::{match_path, match_path_spec, slices};
use crate::diagnostics::{emit, plain, span_lint, views, Diagnostic, DiagnosticView, Lint};
use crate::node::{DeclKind, ExprKind, NodeKind, StmtKind};
use crate::paths;
use crate::query::{
    block_parts, block_stmts, block_tail, expr_kind, expr_kind_of, expr_ty, only_child, span_of, ty_of,
};
use crate::text::{text_eq, texts};
use crate::tree::{children_of, Slot, Tree};
use crate::ty::{match_type, match_type_spec, walk_ptrs_ty};

verus! {

pub const MSG_AND_THEN_SOME: &'static str =
    "Consider using _.map(_) instead of _.and_then(_) if the argument only ever returns Some(_)";

/// The segments of the path of `Some`.
pub open spec fn some_path() -> Seq<Seq<char>> {
    seq!["core"@, "option"@, "Option"@, "Some"@]
}

/// Whether the expression at `at` only ever gives `Some(_)`: it is the
/// path `Some`, a call of such an expression, a block or a closure that
/// ends in one, an `if` whose branches both do, or a `return` of one.
pub open spec fn is_expr_some_spec(s: Seq<Slot>, at: int) -> bool
    decreases s.len() - at, 0int,
{
    let kids = children_of(s, at);
    match expr_kind_of(s, at) {
        Some(ExprKind::Path { segments, .. }) => match_path_spec(texts(segments@), some_path()),
        Some(ExprKind::Call) => kids.len() >= 1 && at < kids[0] < s.len() && is_expr_some_spec(s, kids[0])
            && forall|k: int|
            1 <= k < kids.len() ==> at < #[trigger] kids[k] < s.len() && is_expr_not_ret_none_spec(s, kids[k]),
        Some(ExprKind::Block) | Some(ExprKind::Closure) => kids.len() == 1 && at < kids[0] < s.len()
            && is_block_some_spec(s, kids[0]),
        Some(ExprKind::If) => kids.len() == 3 && at < kids[1] < s.len() && at < kids[2] < s.len()
            && is_block_some_spec(s, kids[1]) && is_expr_some_spec(s, kids[2]),
        Some(ExprKind::Ret) => kids.len() == 1 && at < kids[0] < s.len() && is_expr_some_spec(s, kids[0]),
        _ => false,
    }
}

/// Whether the expression at `at` is no `return` of anything but
/// `Some(_)`.
pub open spec fn is_expr_not_ret_none_spec(s: Seq<Slot>, at: int) -> bool
    decreases s.len() - at, 1int,
{
    match expr_kind_of(s, at) {
        Some(ExprKind::Ret) => is_expr_some_spec(s, at),
        _ => true,
    }
}

/// Whether the statement at `at` returns nothing but `Some(_)`.
pub open spec fn is_statement_some_spec(s: Seq<Slot>, at: int) -> bool
    decreases s.len() - at, 2int,
{
    match (s[at].node.kind, only_child(s, at)) {
        (NodeKind::Stmt(StmtKind::Decl), Some(d)) => {
            let parts = children_of(s, d);
            if s[d].node.kind == NodeKind::Decl(DeclKind::Local { has_init: true }) && parts.len() == 2 {
                at < parts[1] < s.len() && is_expr_not_ret_none_spec(s, parts[1])
            } else {
                true
            }
        },
        (NodeKind::Stmt(StmtKind::Expr), Some(e)) | (NodeKind::Stmt(StmtKind::Semi), Some(e)) => at < e
            < s.len() && is_expr_not_ret_none_spec(s, e),
        _ => true,
    }
}

/// Whether the block at `b` only ever gives `Some(_)`: none of its
/// statements returns anything else, and neither does its trailing
/// expression.
pub open spec fn is_block_some_spec(s: Seq<Slot>, b: int) -> bool
    decreases s.len() - b, 3int,
{
    let stmts = block_stmts(s, b);
    &&& forall|k: int|
        0 <= k < stmts.len() ==> b < #[trigger] stmts[k] < s.len() && is_statement_some_spec(s, stmts[k])
    &&& match block_tail(s, b) {
        Some(e) => b < e < s.len() && is_expr_some_spec(s, e),
        None => true,
    }
}

fn is_expr_some(tree: &Tree, at: usize) -> (r: bool)
    requires
        at < tree@.len(),
    ensures
        r == is_expr_some_spec(tree@, at as int),
    decreases tree@.len() - at, 0int,
{
    match expr_kind(tree, at) {
        Some(ExprKind::Path { segments, .. }) => {
            let some = ["core", "option", "Option", "Some"];
            assert(slices(some@) =~= some_path());
            match_path(segments, some.as_slice())
        },
        Some(ExprKind::Call) => {
            let kids = tree.children(at);
            let n = kids.len();
            if n == 0 || !is_expr_some(tree, kids[0]) {
                return false;
            }
            let mut k: usize = 1;
            while k < n
                invariant
                    1 <= k <= n == kids.len(),
                    at < tree@.len(),
                    expr_kind_of(tree@, at as int) == Some(ExprKind::Call),
                    n == children_of(tree@, at as int).len(),
                    forall|i: int| 0 <= i < n ==> #[trigger] kids[i] == children_of(tree@, at as int)[i],
                    forall|i: int| 0 <= i < n ==> at < #[trigger] kids[i] < tree@.len(),
                    forall|i: int|
                        1 <= i < k ==> is_expr_not_ret_none_spec(
                            tree@,
                            #[trigger] children_of(tree@, at as int)[i],
                        ),
                decreases n - k,
            {
                if !is_expr_not_ret_none(tree, kids[k]) {
                    assert(!is_expr_not_ret_none_spec(tree@, children_of(tree@, at as int)[k as int]));
                    return false;
                }
                k += 1;
            }
            true
        },
        Some(ExprKind::Block) => {
            let kids = tree.children(at);
            kids.len() == 1 && is_block_some(tree, kids[0])
        },
        Some(ExprKind::Closure) => {
            let kids = tree.children(at);
            kids.len() == 1 && is_block_some(tree, kids[0])
        },
        Some(ExprKind::If) => {
            let kids = tree.children(at);
            kids.len() == 3 && is_block_some(tree, kids[1]) && is_expr_some(tree, kids[2])
        },
        Some(ExprKind::Ret) => {
            let kids = tree.children(at);
            kids.len() == 1 && is_expr_some(tree, kids[0])
        },
        _ => false,
    }
}

fn is_expr_not_ret_none(tree: &Tree, at: usize) -> (r: bool)
    requires
        at < tree@.len(),
    ensures
        r == is_expr_not_ret_none_spec(tree@, at as int),
    decreases tree@.len() - at, 1int,
{
    match expr_kind(tree, at) {
        Some(ExprKind::Ret) => is_expr_some(tree, at),
        _ => true,
    }
}

fn is_statement_some(tree: &Tree, at: usize) -> (r: bool)
    requires
        at < tree@.len(),
    ensures
        r == is_statement_some_spec(tree@, at as int),
    decreases tree@.len() - at, 2int,
{
    let inner = tree.children(at);
    if inner.len() != 1 {
        return true;
    }
    match &tree.node(at).kind {
        NodeKind::Stmt(StmtKind::Decl) => {
            let has_init = match &tree.node(inner[0]).kind {
                NodeKind::Decl(DeclKind::Local { has_init }) => *has_init,
                _ => false,
            };
            if !has_init {
                return true;
            }
            let parts = tree.children(inner[0]);
            if parts.len() == 2 {
                is_expr_not_ret_none(tree, parts[1])
            } else {
                true
            }
        },
        NodeKind::Stmt(StmtKind::Expr) => is_expr_not_ret_none(tree, inner[0]),
        NodeKind::Stmt(StmtKind::Semi) => is_expr_not_ret_none(tree, inner[0]),
        _ => true,
    }
}

fn is_block_some(tree: &Tree, b: usize) -> (r: bool)
    requires
        b < tree@.len(),
    ensures
        r == is_block_some_spec(tree@, b as int),
    decreases tree@.len() - b, 3int,
{
    let (stmts, tail) = block_parts(tree, b);
    let n = stmts.len();
    let mut k: usize = 0;
    while k < n
        invariant
            k <= n == stmts.len(),
            b < tree@.len(),
            stmts@.map_values(|k: usize| k as int) == block_stmts(tree@, b as int),
            forall|i: int| 0 <= i < n ==> b < #[trigger] stmts[i] < tree@.len(),
            forall|i: int|
                0 <= i < k ==> is_statement_some_spec(tree@, #[trigger] block_stmts(tree@, b as int)[i]),
        decreases n - k,
    {
        assert(stmts@.map_values(|k: usize| k as int)[k as int] == stmts[k as int]);
        if !is_statement_some(tree, stmts[k]) {
            assert(!is_statement_some_spec(tree@, block_stmts(tree@, b as int)[k as int]));
            return false;
        }
        k += 1;
    }
    assert forall|i: int| 0 <= i < block_stmts(tree@, b as int).len() implies b < #[trigger] block_stmts(
        tree@,
        b as int,
    )[i] < tree@.len() by {
        assert(stmts@.map_values(|k: usize| k as int)[i] == stmts[i]);
    }
    match tail {
        Some(e) => is_expr_some(tree, e),
        None => true,
    }
}

/// Whether the expression at `at` is an `Option`, or a reference to one.
pub open spec fn is_option_spec(s: Seq<Slot>, at: int) -> bool {
    match ty_of(s, at) {
        Some(ty) => match_type_spec(ty.peeled(), paths::OPTION@),
        None => false,
    }
}

fn is_option(tree: &Tree, at: usize) -> (r: bool)
    requires
        at < tree@.len(),
    ensures
        r == is_option_spec(tree@, at as int),
{
    match expr_ty(tree, at) {
        Some(ty) => match_type(walk_ptrs_ty(ty), paths::OPTION),
        None => false,
    }
}

/// What the check reports for the expression at `expr`: a finding for
/// `x.and_then(f)` where `x` is an `Option` and `f` only ever gives
/// `Some(_)`.
pub open spec fn expr_findings(s: Seq<Slot>, expr: int) -> Seq<DiagnosticView> {
    let args = children_of(s, expr);
    match expr_kind_of(s, expr) {
        Some(ExprKind::MethodCall { name, .. }) => if name@ == "and_then"@ && args.len() == 2
            && is_option_spec(s, args[0]) && is_expr_some_spec(s, args[1]) {
            seq![plain(Lint::OptionAndThenSome, span_of(s, expr), MSG_AND_THEN_SOME@)]
        } else {
            Seq::empty()
        },
        _ => Seq::empty(),
    }
}

/// The check for `and_then` that could be `map`.
#[derive(Copy, Clone, Debug)]
pub struct Options;

impl Options {
    /// The lints of this pass.
    pub fn get_lints(&self) -> (lints: Vec<Lint>)
        ensures
            lints@ == seq![Lint::OptionAndThenSome],
    {
        vec![Lint::OptionAndThenSome]
    }

    /// Checks the expression at `expr`.
    pub fn check_expr(&mut self, tree: &Tree, expr: usize, out: &mut Vec<Diagnostic>)
        requires
            expr < tree@.len(),
        ensures
            views(final(out)@) == views(old(out)@) + expr_findings(tree@, expr as int),
    {
        assert(views(out@) + Seq::<DiagnosticView>::empty() =~= views(out@));
        if let Some(ExprKind::MethodCall { name, .. }) = expr_kind(tree, expr) {
            let args = tree.children(expr);
            if text_eq(name.as_str(), "and_then") && args.len() == 2 && is_option(tree, args[0])
                && is_expr_some(tree, args[1]) {
                emit(
                    out,
                    span_lint(
                        Lint::OptionAndThenSome,
                        tree.node(expr).span,
                        String::from_str(MSG_AND_THEN_SOME),
                    ),
                );
            }
        }
    }
}

} // verus!
