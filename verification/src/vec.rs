//! Checks for `&vec![..]` and for loops over `vec![..]` where a slice
//! would do.

use vstd::prelude::*;
use vstd::string::*;
use crate::diagnostics::{
    emit, plain, span_lint_and_then, span_suggestion, suggestion_of, views, with_child, Diagnostic,
    DiagnosticView, Lint,
};
use crate::higher::{for_loop, for_loop_of, vec_macro, vec_macro_of};
use crate::node::{ExprKind, NodeKind, VecArgs};
use crate::query::{eval_is_const, expr_kind, expr_kind_of, has_constant, only_child, span_of};
use crate::source::{expn_info, snippet, snippet_or, SourceMap};
use crate::span::Span;
use crate::tree::{children_of, Slot, Tree};
use crate::ty::{is_copy, is_copy_spec, Ty};

verus! {

pub const MSG_USELESS_VEC: &'static str = "useless use of `vec!`";

pub const HELP_USE_SLICE: &'static str = "you can use a slice directly";

/// The span of the outermost macro call that `span` came from, looking
/// through at most `fuel` expansions.
pub open spec fn callsite_of(source: SourceMap, span: Span, fuel: nat) -> Span
    decreases fuel,
{
    if fuel == 0 {
        span
    } else {
        match expn_info(source.expansions@, span.expn_id) {
            Some(info) => callsite_of(source, info.call_site, (fuel - 1) as nat),
            None => span,
        }
    }
}

/// The span in the source as written from which `span` was expanded.
pub fn source_callsite(source: &SourceMap, span: Span) -> (r: Span)
    ensures
        r == callsite_of(*source, span, source.expansions@.len()),
{
    let mut cur = span;
    let mut fuel = source.expansions.len();
    while fuel > 0
        invariant
            callsite_of(*source, cur, fuel as nat) == callsite_of(*source, span, source.expansions@.len()),
        decreases fuel,
    {
        match source.expn_info(cur) {
            Some(info) => {
                cur = info.call_site;
                fuel -= 1;
            },
            None => {
                return cur;
            },
        }
    }
    cur
}

/// The type of the expression at `at` after adjustment: its type where
/// no adjustment is recorded.
pub open spec fn adjusted_ty_of(s: Seq<Slot>, at: int) -> Option<Ty> {
    if 0 <= at < s.len() {
        match s[at].node.kind {
            NodeKind::Expr { ty, adjusted, .. } => match adjusted {
                Some(t) => Some(t),
                None => Some(ty),
            },
            _ => None,
        }
    } else {
        None
    }
}

/// The type of the expression at `at` after adjustment.
pub fn expr_ty_adjusted(tree: &Tree, at: usize) -> (r: Option<&Ty>)
    requires
        at < tree@.len(),
    ensures
        match r {
            Some(t) => adjusted_ty_of(tree@, at as int) == Some(*t),
            None => adjusted_ty_of(tree@, at as int).is_none(),
        },
{
    match &tree.node(at).kind {
        NodeKind::Expr { ty, adjusted, .. } => match adjusted {
            Some(t) => Some(t),
            None => Some(ty),
        },
        _ => None,
    }
}

/// Whether an adjustment is recorded for the expression at `at`.
pub open spec fn is_adjusted_spec(s: Seq<Slot>, at: int) -> bool {
    0 <= at < s.len() && match s[at].node.kind {
        NodeKind::Expr { adjusted, .. } => adjusted.is_some(),
        _ => false,
    }
}

/// The slice that stands for the `vec!` expansion at `at`: `&[elem; len]`
/// for the repeat form if the length is a constant, and `&[a, b, c]` for
/// the list form.
pub open spec fn slice_text(src: Seq<char>, s: Seq<Slot>, at: int) -> Option<Seq<char>> {
    let args = children_of(s, at);
    match vec_macro_of(s, at) {
        Some(VecArgs::Repeat) => if has_constant(s, args[1]) {
            Some(
                "&["@ + snippet_or(src, span_of(s, args[0]), "elem"@) + "; "@ + snippet_or(
                    src,
                    span_of(s, args[1]),
                    "len"@,
                ) + "]"@,
            )
        } else {
            None
        },
        Some(VecArgs::Vec) => if args.len() > 0 {
            Some(
                "&["@ + snippet_or(
                    src,
                    Span {
                        lo: span_of(s, args[0]).lo,
                        hi: span_of(s, args.last()).hi,
                        expn_id: span_of(s, args[0]).expn_id,
                    },
                    ".."@,
                ) + "]"@,
            )
        } else {
            Some("&[]"@)
        },
        None => None,
    }
}

/// What the check reports at `span` for the `vec!` expansion at `at`.
pub open spec fn vec_macro_findings(src: Seq<char>, s: Seq<Slot>, at: int, span: Span) -> Seq<DiagnosticView> {
    match slice_text(src, s, at) {
        Some(text) => seq![
            with_child(
                plain(Lint::UselessVec, span, MSG_USELESS_VEC@),
                suggestion_of(span, HELP_USE_SLICE@, text),
            ),
        ],
        None => Seq::empty(),
    }
}

fn check_vec_macro(source: &SourceMap, tree: &Tree, at: usize, span: Span, out: &mut Vec<Diagnostic>)
    requires
        at < tree@.len(),
    ensures
        views(final(out)@) == views(old(out)@) + vec_macro_findings(source.src@, tree@, at as int, span),
{
    assert(views(out@) + Seq::<DiagnosticView>::empty() =~= views(out@));
    let args = tree.children(at);
    let text = match vec_macro(tree, at) {
        Some(VecArgs::Repeat) => {
            if eval_is_const(tree, args[1]) {
                let mut t = String::from_str("&[");
                t.append(snippet(source, tree.node(args[0]).span, "elem").as_str());
                t.append("; ");
                t.append(snippet(source, tree.node(args[1]).span, "len").as_str());
                t.append("]");
                t
            } else {
                return ;
            }
        },
        Some(VecArgs::Vec) => {
            if args.len() > 0 {
                let first = tree.node(args[0]).span;
                let last = tree.node(args[args.len() - 1]).span;
                let mut t = String::from_str("&[");
                t.append(snippet(source, first.to(last), "..").as_str());
                t.append("]");
                t
            } else {
                String::from_str("&[]")
            }
        },
        None => {
            return ;
        },
    };
    let d = span_lint_and_then(
        Lint::UselessVec,
        span,
        String::from_str(MSG_USELESS_VEC),
        span_suggestion(span, String::from_str(HELP_USE_SLICE), text),
    );
    emit(out, d);
}

/// The item type of the vector (ie. the `T` in `Vec<T>`).
pub open spec fn vec_type_spec(ty: Ty) -> Option<Ty> {
    match ty {
        Ty::Adt { args, .. } => if args@.len() > 0 {
            Some(args@[0])
        } else {
            None
        },
        _ => None,
    }
}

fn vec_type(ty: &Ty) -> (r: Option<&Ty>)
    ensures
        match r {
            Some(t) => vec_type_spec(*ty) == Some(*t),
            None => vec_type_spec(*ty).is_none(),
        },
{
    match ty {
        Ty::Adt { args, .. } => {
            if args.len() > 0 {
                Some(&args[0])
            } else {
                None
            }
        },
        _ => None,
    }
}

/// The `vec!` expansion that the expression at `expr` borrows as a slice.
pub open spec fn borrowed_vec(s: Seq<Slot>, expr: int) -> Option<int> {
    match (adjusted_ty_of(s, expr), expr_kind_of(s, expr), only_child(s, expr)) {
        (Some(Ty::Ref(inner)), Some(ExprKind::AddrOf(_)), Some(addressee)) => if *inner is Slice
            && vec_macro_of(s, addressee).is_some() {
            Some(addressee)
        } else {
            None
        },
        _ => None,
    }
}

/// The `vec!` expansion that the `for` loop at `expr` iterates, if its
/// items are copied.
pub open spec fn iterated_vec(s: Seq<Slot>, expr: int) -> Option<int> {
    match for_loop_of(s, expr) {
        Some(f) => match adjusted_ty_of(s, f.arg as int) {
            Some(ty) => match vec_type_spec(ty) {
                Some(item) => if vec_macro_of(s, f.arg as int).is_some() && is_copy_spec(item) {
                    Some(f.arg as int)
                } else {
                    None
                },
                None => None,
            },
            None => None,
        },
        None => None,
    }
}

/// What the check reports for the expression at `expr`.
pub open spec fn expr_findings(source: SourceMap, s: Seq<Slot>, expr: int) -> Seq<DiagnosticView> {
    (match borrowed_vec(s, expr) {
        Some(v) => vec_macro_findings(source.src@, s, v, span_of(s, expr)),
        None => Seq::empty(),
    }) + (match iterated_vec(s, expr) {
        Some(v) => vec_macro_findings(
            source.src@,
            s,
            v,
            callsite_of(source, span_of(s, v), source.expansions@.len()),
        ),
        None => Seq::empty(),
    })
}

/// The check for useless uses of `vec!`.
#[derive(Copy, Clone, Debug)]
pub struct Pass;

impl Pass {
    /// The lints of this pass.
    pub fn get_lints(&self) -> (lints: Vec<Lint>)
        ensures
            lints@ == seq![Lint::UselessVec],
    {
        vec![Lint::UselessVec]
    }

    /// Checks the expression at `expr`.
    pub fn check_expr(&mut self, source: &SourceMap, tree: &Tree, expr: usize, out: &mut Vec<Diagnostic>)
        requires
            expr < tree@.len(),
        ensures
            views(final(out)@) == views(old(out)@) + expr_findings(*source, tree@, expr as int),
    {
        let ghost before = views(out@);
        let ghost a = match borrowed_vec(tree@, expr as int) {
            Some(v) => vec_macro_findings(source.src@, tree@, v, span_of(tree@, expr as int)),
            None => Seq::empty(),
        };
        let ghost b = match iterated_vec(tree@, expr as int) {
            Some(v) => vec_macro_findings(
                source.src@,
                tree@,
                v,
                callsite_of(*source, span_of(tree@, v), source.expansions@.len()),
            ),
            None => Seq::empty(),
        };
        assert(before + Seq::<DiagnosticView>::empty() =~= before);
        // search for `&vec![_]` expressions where the adjusted type is `&[_]`
        let to_slice = match expr_ty_adjusted(tree, expr) {
            Some(Ty::Ref(inner)) => match &**inner {
                Ty::Slice(_) => true,
                _ => false,
            },
            _ => false,
        };
        let is_addr_of = match expr_kind(tree, expr) {
            Some(ExprKind::AddrOf(_)) => true,
            _ => false,
        };
        if to_slice && is_addr_of {
            let inner = tree.children(expr);
            if inner.len() == 1 && vec_macro(tree, inner[0]).is_some() {
                check_vec_macro(source, tree, inner[0], tree.node(expr).span, out);
            }
        }
        assert(views(out@) =~= before + a);
        // search for `for _ in vec![…]`
        if let Some(f) = for_loop(tree, expr) {
            if vec_macro(tree, f.arg).is_some() {
                let copied = match expr_ty_adjusted(tree, f.arg) {
                    Some(ty) => match vec_type(ty) {
                        Some(item) => is_copy(item),
                        None => false,
                    },
                    None => false,
                };
                if copied {
                    // report the error around the `vec!` not inside `<std macros>:`
                    let span = source_callsite(source, tree.node(f.arg).span);
                    check_vec_macro(source, tree, f.arg, span, out);
                }
            }
        }
        assert((before + a) + b =~= before + (a + b));
    }
}

/// Whether the type of the expression at `at` was adjusted.
pub fn is_adjusted(tree: &Tree, at: usize) -> (r: bool)
    requires
        at < tree@.len(),
    ensures
        r == is_adjusted_spec(tree@, at as int),
{
    match &tree.node(at).kind {
        NodeKind::Expr { adjusted, .. } => adjusted.is_some(),
        _ => false,
    }
}

} // verus!
