//! Detectors on loops: a range used only to index, an empty or reversed
//! range, an explicit counter, iteration through `iter()` or `next()`, a
//! map iterated for its keys or values alone, an empty `loop`, and loops
//! that are a `while let` or a `for` in disguise.

use vstd::prelude::*;
use vstd::string::*;
use crate::context::LateContext;
use crate::diagnostics::{
    emit, help_of, multispan_sugg, plain, span_help_and_lint, span_lint, span_lint_and_then,
    span_suggestion, suggestion2_of, suggestion_of, views, with_child, Defect, Diagnostic, DiagnosticView,
    Lint, Replacement, ReplacementView,
};
use crate::higher::{for_loop, for_loop_of, range, range_of, Range};
use crate::node::{DeclKind, ExprKind, MatchSource, NodeKind, PatKind, RangeLimits, StmtKind};
use crate::paths;
use crate::query::{
    arm, arm_of, block_parts, block_stmts, block_tail, plain_arm, plain_arm_at, enclosing_block_of,
    eval_integral, expr_kind, expr_kind_of, expr_ty, get_enclosing_block, integral_of,
    is_integer_literal, is_integer_literal_spec, only_child, pat_kind, pat_kind_of, single_name,
    single_name_of, span_of, ty_of,
};
use crate::scope::{reaches, scope_of};
use crate::source::{in_external_macro, in_external_macro_spec, snippet, snippet_or, SourceMap};
use crate::sugg::{maybe_par_spec, plus_one_spec, sugg_of, Sugg};
use crate::text::{is_prefix, starts_with, text_eq};
use crate::tree::{children_of, last_of, position_of, walk, walk_spec, Slot, Tree, Visitor};
use crate::ty::{match_type, match_type_spec, walk_ptrs_ty, Ty};
use crate::usage::{
    distinct_ids, distinct_names, is_used, is_used_after, lemma_indexed_stay_distinct,
    lemma_states_stay_distinct, used_after, used_in, variable, variable_of, Declared, IncrModel,
    IncrementVisitor, InitModel, InitializeVisitor, VarModel, VarState, VarVisitor,
};

verus! {

pub const MSG_EMPTY_RANGE: &'static str = "this range is empty so this for loop will never run";

pub const HELP_REVERSE_RANGE: &'static str =
    "consider using the following if you are attempting to iterate over this range in reverse";

pub const MSG_EMPTY_LOOP: &'static str =
    "empty `loop {}` detected. You may want to either use `panic!()` or add `std::thread::sleep(..);` to the loop body.";

pub const MSG_ITER_NEXT: &'static str =
    "you are iterating over `Iterator::next()` which is an Option; this will compile but is probably not what you want";

pub const MSG_UNUSED_COLLECT: &'static str =
    "you are collect()ing an iterator and throwing away the result. Consider using an explicit for loop to exhaust the iterator";

/// The text of a range's limits.
pub open spec fn dots_of(limits: RangeLimits) -> Seq<char> {
    if limits == RangeLimits::Closed {
        "..."@
    } else {
        ".."@
    }
}

/// The range with its bounds swapped, and walked backwards.
pub open spec fn reversed_range_text(start: Seq<char>, end: Seq<char>, limits: RangeLimits) -> Seq<char> {
    "("@ + end + dots_of(limits) + start + ").rev()"@
}

/// What the reverse-range detector reports for the loop at `expr` over
/// `arg`: where `arg` is a range whose bounds both fold to integers, an
/// empty range with the suggestion to reverse it if the start is above the
/// end, and an empty range if they are equal and the end is excluded.
pub open spec fn reverse_range_findings(src: Seq<char>, s: Seq<Slot>, arg: int, expr: int) -> Seq<
    DiagnosticView,
> {
    match range_of(s, arg) {
        Some(Range { start: Some(start), end: Some(end), limits }) => match (
            integral_of(s, start as int),
            integral_of(s, end as int),
        ) {
            (Some(a), Some(b)) => if a > b {
                seq![
                    with_child(
                        plain(Lint::ReverseRangeLoop, span_of(s, expr), MSG_EMPTY_RANGE@),
                        suggestion_of(
                            span_of(s, arg),
                            HELP_REVERSE_RANGE@,
                            reversed_range_text(
                                snippet_or(src, span_of(s, start as int), "_"@),
                                snippet_or(src, span_of(s, end as int), "_"@),
                                limits,
                            ),
                        ),
                    ),
                ]
            } else if a == b && limits != RangeLimits::Closed {
                seq![plain(Lint::ReverseRangeLoop, span_of(s, expr), MSG_EMPTY_RANGE@)]
            } else {
                Seq::empty()
            },
            _ => Seq::empty(),
        },
        _ => Seq::empty(),
    }
}

/// A loop over a range with the constant bounds `a` and `b` is reported
/// exactly if the range is empty: if `a` is above `b`, or if they are
/// equal and the end is excluded. A range of one element is not reported.
pub proof fn lemma_reverse_range_fires(
    src: Seq<char>,
    s: Seq<Slot>,
    arg: int,
    expr: int,
    start: usize,
    end: usize,
    limits: RangeLimits,
    a: i128,
    b: i128,
)
    requires
        range_of(s, arg) == Some(Range { start: Some(start), end: Some(end), limits }),
        integral_of(s, start as int) == Some(a),
        integral_of(s, end as int) == Some(b),
    ensures
        reverse_range_findings(src, s, arg, expr).len() == (if a > b || (a == b && limits
            == RangeLimits::HalfOpen) {
            1nat
        } else {
            0nat
        }),
        a > b ==> reverse_range_findings(src, s, arg, expr)[0].children.len() == 1,
        a == b ==> reverse_range_findings(src, s, arg, expr).len() == 0 || reverse_range_findings(
            src,
            s,
            arg,
            expr,
        )[0].children.len() == 0,
{
}

/// Checks for a loop over a range that is empty because its bounds are
/// constants in the wrong order.
pub fn check_for_loop_reverse_range(
    source: &SourceMap,
    tree: &Tree,
    arg: usize,
    expr: usize,
    out: &mut Vec<Diagnostic>,
)
    requires
        arg < tree@.len(),
        expr < tree@.len(),
    ensures
        views(final(out)@) == views(old(out)@) + reverse_range_findings(
            source.src@,
            tree@,
            arg as int,
            expr as int,
        ),
{
    assert(views(out@) + Seq::<DiagnosticView>::empty() =~= views(out@));
    if let Some(r) = range(tree, arg) {
        if let (Some(start), Some(end)) = (r.start, r.end) {
            if let (Some(start_idx), Some(end_idx)) = (eval_integral(tree, start), eval_integral(tree, end)) {
                if start_idx > end_idx {
                    let start_snippet = snippet(source, tree.node(start).span, "_");
                    let end_snippet = snippet(source, tree.node(end).span, "_");
                    let dots = match r.limits {
                        RangeLimits::Closed => "...",
                        RangeLimits::HalfOpen => "..",
                    };
                    let mut sugg = String::from_str("(");
                    sugg.append(end_snippet.as_str());
                    sugg.append(dots);
                    sugg.append(start_snippet.as_str());
                    sugg.append(").rev()");
                    let d = span_lint_and_then(
                        Lint::ReverseRangeLoop,
                        tree.node(expr).span,
                        String::from_str(MSG_EMPTY_RANGE),
                        span_suggestion(tree.node(arg).span, String::from_str(HELP_REVERSE_RANGE), sugg),
                    );
                    emit(out, d);
                } else if start_idx == end_idx && r.limits != RangeLimits::Closed {
                    let d = span_lint(
                        Lint::ReverseRangeLoop,
                        tree.node(expr).span,
                        String::from_str(MSG_EMPTY_RANGE),
                    );
                    emit(out, d);
                }
            }
        }
    }
}

/// Whether the expression at `at` is `name.len()` for the bare name
/// `name`.
pub open spec fn is_len_call_spec(s: Seq<Slot>, at: int, name: Seq<char>) -> bool {
    match expr_kind_of(s, at) {
        Some(ExprKind::MethodCall { name: method, .. }) => {
            let kids = children_of(s, at);
            &&& method@ == "len"@
            &&& kids.len() == 1
            &&& match expr_kind_of(s, kids[0]) {
                Some(ExprKind::Path { segments, .. }) => segments.len() == 1 && segments[0]@ == name,
                _ => false,
            }
        },
        _ => false,
    }
}

fn is_len_call(tree: &Tree, at: usize, var: &str) -> (r: bool)
    requires
        at < tree@.len(),
    ensures
        r == is_len_call_spec(tree@, at as int, var@),
{
    match expr_kind(tree, at) {
        Some(ExprKind::MethodCall { name, .. }) => {
            if !text_eq(name.as_str(), "len") {
                return false;
            }
            let kids = tree.children(at);
            if kids.len() != 1 {
                return false;
            }
            match expr_kind(tree, kids[0]) {
                Some(ExprKind::Path { segments, .. }) => segments.len() == 1 && text_eq(
                    segments[0].as_str(),
                    var,
                ),
                _ => false,
            }
        },
        _ => false,
    }
}

/// The `.skip(..)` that stands for the start of the range: nothing for a
/// literal zero.
pub open spec fn skip_text(src: Seq<char>, s: Seq<Slot>, start: int) -> Seq<char> {
    if is_integer_literal_spec(s, start, 0) {
        Seq::empty()
    } else {
        ".skip("@ + snippet_or(src, span_of(s, start), ".."@) + ")"@
    }
}

/// The `.take(..)` that stands for the end of the range: nothing if the
/// range has no end or ends at the length of the indexed variable; for an
/// inclusive range the end as written, plus one.
pub open spec fn take_text(
    src: Seq<char>,
    s: Seq<Slot>,
    end: Option<usize>,
    limits: RangeLimits,
    indexed: Seq<char>,
) -> Seq<char> {
    match end {
        Some(end) => if is_len_call_spec(s, end as int, indexed) {
            Seq::empty()
        } else {
            match limits {
                RangeLimits::Closed => ".take("@ + plus_one_spec(
                    sugg_of(src, s, end as int, "<count>"@),
                ).text + ")"@,
                RangeLimits::HalfOpen => ".take("@ + snippet_or(src, span_of(s, end as int), ".."@)
                    + ")"@,
            }
        },
        None => Seq::empty(),
    }
}

pub const HELP_USE_ITERATOR: &'static str = "consider using an iterator";

/// The finding for a loop over a range whose variable `ident` indexes
/// `indexed`: iteration over `indexed` itself if the variable does
/// nothing else, and with `.enumerate()` if it does.
pub open spec fn range_loop_diag(
    src: Seq<char>,
    s: Seq<Slot>,
    pat: int,
    arg: int,
    expr: int,
    ident: Seq<char>,
    indexed: Seq<char>,
    start: int,
    end: Option<usize>,
    limits: RangeLimits,
    nonindex: bool,
) -> DiagnosticView {
    let skip = skip_text(src, s, start);
    let take = take_text(src, s, end, limits, indexed);
    if nonindex {
        with_child(
            plain(
                Lint::NeedlessRangeLoop,
                span_of(s, expr),
                "the loop variable `"@ + ident + "` is used to index `"@ + indexed + "`"@,
            ),
            suggestion2_of(
                HELP_USE_ITERATOR@,
                ReplacementView { span: span_of(s, pat), text: "("@ + ident + ", <item>)"@ },
                ReplacementView {
                    span: span_of(s, arg),
                    text: indexed + ".iter().enumerate()"@ + take + skip,
                },
            ),
        )
    } else {
        with_child(
            plain(
                Lint::NeedlessRangeLoop,
                span_of(s, expr),
                "the loop variable `"@ + ident + "` is only used to index `"@ + indexed + "`."@,
            ),
            suggestion2_of(
                HELP_USE_ITERATOR@,
                ReplacementView { span: span_of(s, pat), text: "<item>"@ },
                ReplacementView {
                    span: span_of(s, arg),
                    text: if is_integer_literal_spec(s, start, 0) && take.len() == 0 {
                        "&"@ + indexed
                    } else {
                        indexed + ".iter()"@ + take + skip
                    },
                },
            ),
        )
    }
}

/// Whether an indexed variable declared in `d` is left out: it is if it
/// is declared inside the extent of the loop variable `var`, or if either
/// extent is not known.
pub open spec fn declared_inside(cx: LateContext, d: Declared, var: u32) -> bool {
    match d {
        Declared::In(e) => match scope_of(cx.scopes.vars@, var, cx.scopes.vars@.len() as int) {
            Some(pe) => reaches(cx.scopes.parents@, e as int, pe as int),
            None => true,
        },
        Declared::Unknown => true,
        Declared::Global => false,
    }
}

/// What the scan for uses of the loop variable `var` finds in the subtree
/// at `body`.
pub open spec fn index_uses(cx: LateContext, s: Seq<Slot>, var: u32, body: int) -> VarModel {
    walk_spec::<VarVisitor>(
        VarModel {
            vars: cx.scopes.vars@,
            parents: cx.scopes.parents@,
            var,
            indexed: Seq::empty(),
            nonindex: false,
        },
        s,
        body,
        last_of(s, body),
    )
}

/// The scan for index uses records each indexed variable once: the
/// record is a map from names.
pub proof fn lemma_index_uses_distinct(cx: LateContext, s: Seq<Slot>, var: u32, body: int)
    ensures
        distinct_names(index_uses(cx, s, var, body).indexed),
{
    lemma_indexed_stay_distinct(
        VarModel {
            vars: cx.scopes.vars@,
            parents: cx.scopes.parents@,
            var,
            indexed: Seq::empty(),
            nonindex: false,
        },
        s,
        body,
        last_of(s, body),
    );
}

/// What the range-index detector reports for the loop `for pat in arg
/// body` at `expr`: a finding if `arg` is a range with a start, `pat` is a
/// plain binding, and the loop variable indexes exactly one variable,
/// which is not declared inside the loop.
pub open spec fn range_loop_findings(
    cx: LateContext,
    s: Seq<Slot>,
    pat: int,
    arg: int,
    body: int,
    expr: int,
) -> Seq<DiagnosticView> {
    match (range_of(s, arg), pat_kind_of(s, pat)) {
        (Some(Range { start: Some(start), end, limits }), Some(PatKind::Binding { name, .. })) => {
            let m = index_uses(cx, s, s[pat].node.id, body);
            if m.indexed.len() == 1 && !declared_inside(cx, m.indexed[0].1, s[pat].node.id) {
                seq![
                    range_loop_diag(
                        cx.source.src@,
                        s,
                        pat,
                        arg,
                        expr,
                        name@,
                        m.indexed[0].0,
                        start as int,
                        end,
                        limits,
                        m.nonindex,
                    ),
                ]
            } else {
                Seq::empty()
            }
        },
        _ => Seq::empty(),
    }
}

/// Check for looping over a range and then indexing a sequence with it.
/// The iteratee must be a range literal.
pub fn check_for_loop_range(
    cx: &LateContext,
    tree: &Tree,
    pat: usize,
    arg: usize,
    body: usize,
    expr: usize,
    out: &mut Vec<Diagnostic>,
)
    requires
        pat < tree@.len(),
        arg < tree@.len(),
        body < tree@.len(),
        expr < tree@.len(),
    ensures
        views(final(out)@) == views(old(out)@) + range_loop_findings(
            *cx,
            tree@,
            pat as int,
            arg as int,
            body as int,
            expr as int,
        ),
{
    assert(views(out@) + Seq::<DiagnosticView>::empty() =~= views(out@));
    let r = match range(tree, arg) {
        Some(r) => r,
        None => {
            return ;
        },
    };
    let start = match r.start {
        Some(start) => start,
        None => {
            return ;
        },
    };
    let ident = match pat_kind(tree, pat) {
        Some(PatKind::Binding { name, .. }) => name,
        _ => {
            return ;
        },
    };
    let var = tree.node(pat).id;
    let mut visitor = VarVisitor { scopes: &cx.scopes, var, indexed: Vec::new(), nonindex: false };
    assert(visitor.model().indexed =~= Seq::empty());
    walk(&mut visitor, tree, body);
    // linting condition: we only indexed one variable
    if visitor.indexed.len() != 1 {
        return ;
    }
    let indexed = &visitor.indexed[0].0;
    // ensure that the indexed variable was declared before the loop
    let inside = match visitor.indexed[0].1 {
        Declared::In(e) => match cx.scopes.var_scope(var) {
            Some(pe) => cx.scopes.is_subscope_of(e, pe),
            None => true,
        },
        Declared::Unknown => true,
        Declared::Global => false,
    };
    if inside {
        return ;
    }
    let starts_at_zero = is_integer_literal(tree, start, 0);
    let skip = if starts_at_zero {
        String::new()
    } else {
        let mut t = String::from_str(".skip(");
        t.append(snippet(&cx.source, tree.node(start).span, "..").as_str());
        t.append(")");
        t
    };
    let take = match r.end {
        Some(end) => {
            if is_len_call(tree, end, indexed.as_str()) {
                String::new()
            } else {
                match r.limits {
                    RangeLimits::Closed => {
                        let end = Sugg::hir(&cx.source, tree, end, "<count>").plus_one();
                        let mut t = String::from_str(".take(");
                        t.append(end.text.as_str());
                        t.append(")");
                        t
                    },
                    RangeLimits::HalfOpen => {
                        let mut t = String::from_str(".take(");
                        t.append(snippet(&cx.source, tree.node(end).span, "..").as_str());
                        t.append(")");
                        t
                    },
                }
            }
        },
        None => String::new(),
    };
    if visitor.nonindex {
        let mut msg = String::from_str("the loop variable `");
        msg.append(ident.as_str());
        msg.append("` is used to index `");
        msg.append(indexed.as_str());
        msg.append("`");
        let mut pair = String::from_str("(");
        pair.append(ident.as_str());
        pair.append(", <item>)");
        let mut repl = String::from_str(indexed.as_str());
        assert(repl@ =~= indexed@);
        repl.append(".iter().enumerate()");
        repl.append(take.as_str());
        repl.append(skip.as_str());
        let d = span_lint_and_then(
            Lint::NeedlessRangeLoop,
            tree.node(expr).span,
            msg,
            multispan_sugg(
                String::from_str(HELP_USE_ITERATOR),
                Replacement { span: tree.node(pat).span, text: pair },
                Replacement { span: tree.node(arg).span, text: repl },
            ),
        );
        emit(out, d);
    } else {
        let mut msg = String::from_str("the loop variable `");
        msg.append(ident.as_str());
        msg.append("` is only used to index `");
        msg.append(indexed.as_str());
        msg.append("`.");
        let repl = if starts_at_zero && take.as_str().is_empty() {
            let mut t = String::from_str("&");
            t.append(indexed.as_str());
            t
        } else {
            let mut t = String::from_str(indexed.as_str());
            t.append(".iter()");
            t.append(take.as_str());
            t.append(skip.as_str());
            t
        };
        let d = span_lint_and_then(
            Lint::NeedlessRangeLoop,
            tree.node(expr).span,
            msg,
            multispan_sugg(
                String::from_str(HELP_USE_ITERATOR),
                Replacement { span: tree.node(pat).span, text: String::from_str("<item>") },
                Replacement { span: tree.node(arg).span, text: repl },
            ),
        );
        emit(out, d);
    }
}

/// Whether the type is an array short enough to be iterated by
/// reference.
pub open spec fn is_iterable_array_spec(ty: Ty) -> bool {
    match ty {
        Ty::Array(_, n) => n <= 32,
        _ => false,
    }
}

/// Whether `&T` and `&mut T` can be iterated for the type `T`, as far as
/// the detector knows: short arrays and the collections of the standard
/// library.
pub open spec fn is_ref_iterable(ty: Ty) -> bool {
    ||| is_iterable_array_spec(ty)
    ||| match_type_spec(ty, paths::VEC@)
    ||| match_type_spec(ty, paths::LINKED_LIST@)
    ||| match_type_spec(ty, paths::HASHMAP@)
    ||| match_type_spec(ty, paths::HASHSET@)
    ||| match_type_spec(ty, paths::VEC_DEQUE@)
    ||| match_type_spec(ty, paths::BINARY_HEAP@)
    ||| match_type_spec(ty, paths::BTREEMAP@)
    ||| match_type_spec(ty, paths::BTREESET@)
}

fn is_iterable_array(ty: &Ty) -> (r: bool)
    ensures
        r == is_iterable_array_spec(*ty),
{
    match ty {
        Ty::Array(_, n) => *n <= 32,
        _ => false,
    }
}

/// Return true if the type is one that provides `IntoIterator` impls for
/// `&T` and `&mut T`, such as `Vec`.
fn is_ref_iterable_type(ty: &Ty) -> (r: bool)
    ensures
        r == is_ref_iterable(*ty),
{
    is_iterable_array(ty) || match_type(ty, paths::VEC) || match_type(ty, paths::LINKED_LIST)
        || match_type(ty, paths::HASHMAP) || match_type(ty, paths::HASHSET) || match_type(
        ty,
        paths::VEC_DEQUE,
    ) || match_type(ty, paths::BINARY_HEAP) || match_type(ty, paths::BTREEMAP) || match_type(
        ty,
        paths::BTREESET,
    )
}

/// What the detector for loops over an `Option` or a `Result` reports for
/// `for pat in arg`.
pub open spec fn arg_type_findings(src: Seq<char>, s: Seq<Slot>, pat: int, arg: int) -> Seq<
    DiagnosticView,
> {
    let arg_text = snippet_or(src, span_of(s, arg), "_"@);
    let pat_text = snippet_or(src, span_of(s, pat), "_"@);
    match ty_of(s, arg) {
        Some(ty) => if match_type_spec(ty, paths::OPTION@) {
            seq![
                with_child(
                    plain(
                        Lint::ForLoopOverOption,
                        span_of(s, arg),
                        "for loop over `"@ + arg_text
                            + "`, which is an `Option`. This is more readably written as an `if let` statement."@,
                    ),
                    help_of(
                        "consider replacing `for "@ + pat_text + " in "@ + arg_text + "` with `if let Some("@
                            + pat_text + ") = "@ + arg_text + "`"@,
                    ),
                ),
            ]
        } else if match_type_spec(ty, paths::RESULT@) {
            seq![
                with_child(
                    plain(
                        Lint::ForLoopOverResult,
                        span_of(s, arg),
                        "for loop over `"@ + arg_text
                            + "`, which is a `Result`. This is more readably written as an `if let` statement."@,
                    ),
                    help_of(
                        "consider replacing `for "@ + pat_text + " in "@ + arg_text + "` with `if let Ok("@
                            + pat_text + ") = "@ + arg_text + "`"@,
                    ),
                ),
            ]
        } else {
            Seq::empty()
        },
        None => Seq::empty(),
    }
}

/// Check for `for` loops over `Option`s and `Results`
pub fn check_arg_type(source: &SourceMap, tree: &Tree, pat: usize, arg: usize, out: &mut Vec<Diagnostic>)
    requires
        pat < tree@.len(),
        arg < tree@.len(),
    ensures
        views(final(out)@) == views(old(out)@) + arg_type_findings(
            source.src@,
            tree@,
            pat as int,
            arg as int,
        ),
{
    assert(views(out@) + Seq::<DiagnosticView>::empty() =~= views(out@));
    let ty = match expr_ty(tree, arg) {
        Some(ty) => ty,
        None => {
            return ;
        },
    };
    let is_option = match_type(ty, paths::OPTION);
    if !is_option && !match_type(ty, paths::RESULT) {
        return ;
    }
    let arg_text = snippet(source, tree.node(arg).span, "_");
    let pat_text = snippet(source, tree.node(pat).span, "_");
    let mut msg = String::from_str("for loop over `");
    msg.append(arg_text.as_str());
    let mut help = String::from_str("consider replacing `for ");
    help.append(pat_text.as_str());
    help.append(" in ");
    help.append(arg_text.as_str());
    if is_option {
        msg.append("`, which is an `Option`. This is more readably written as an `if let` statement.");
        help.append("` with `if let Some(");
    } else {
        msg.append("`, which is a `Result`. This is more readably written as an `if let` statement.");
        help.append("` with `if let Ok(");
    }
    help.append(pat_text.as_str());
    help.append(") = ");
    help.append(arg_text.as_str());
    help.append("`");
    let lint = if is_option {
        Lint::ForLoopOverOption
    } else {
        Lint::ForLoopOverResult
    };
    emit(out, span_help_and_lint(lint, tree.node(arg).span, msg, help));
}

/// The receiver of the method call at `at` if the call has no arguments
/// and the method has the name `name`.
pub open spec fn receiver_of(s: Seq<Slot>, at: int, name: Seq<char>) -> Option<int> {
    match expr_kind_of(s, at) {
        Some(ExprKind::MethodCall { name: method, .. }) => if method@ == name && children_of(s, at).len()
            == 1 {
            Some(children_of(s, at)[0])
        } else {
            None
        },
        _ => None,
    }
}

/// Whether the method call at `at` calls a method of the trait `path`.
pub open spec fn match_trait_method_spec(s: Seq<Slot>, at: int, path: Seq<char>) -> bool {
    match expr_kind_of(s, at) {
        Some(ExprKind::MethodCall { trait_path: Some(t), .. }) => t@ == path,
        _ => false,
    }
}

/// Whether the method call at `at` calls a method of an impl of `path`.
pub open spec fn match_impl_method_spec(s: Seq<Slot>, at: int, path: Seq<char>) -> bool {
    match expr_kind_of(s, at) {
        Some(ExprKind::MethodCall { impl_path: Some(t), .. }) => t@ == path,
        _ => false,
    }
}

/// Check if the method call given in `expr` belongs to given trait.
pub fn match_trait_method(tree: &Tree, expr: usize, path: &str) -> (r: bool)
    requires
        expr < tree@.len(),
    ensures
        r == match_trait_method_spec(tree@, expr as int, path@),
{
    match expr_kind(tree, expr) {
        Some(ExprKind::MethodCall { trait_path: Some(t), .. }) => text_eq(t.as_str(), path),
        _ => false,
    }
}

/// Check if the method call given in `expr` belongs to given type.
pub fn match_impl_method(tree: &Tree, expr: usize, path: &str) -> (r: bool)
    requires
        expr < tree@.len(),
    ensures
        r == match_impl_method_spec(tree@, expr as int, path@),
{
    match expr_kind(tree, expr) {
        Some(ExprKind::MethodCall { impl_path: Some(t), .. }) => text_eq(t.as_str(), path),
        _ => false,
    }
}

/// The receiver of the call at `at` of the method `name` without
/// arguments.
pub fn receiver(tree: &Tree, at: usize, name: &str) -> (r: Option<usize>)
    requires
        at < tree@.len(),
    ensures
        match r {
            Some(recv) => receiver_of(tree@, at as int, name@) == Some(recv as int) && recv < tree@.len(),
            None => receiver_of(tree@, at as int, name@).is_none(),
        },
{
    match expr_kind(tree, at) {
        Some(ExprKind::MethodCall { name: method, .. }) => {
            if !text_eq(method.as_str(), name) {
                return None;
            }
            let kids = tree.children(at);
            if kids.len() == 1 {
                Some(kids[0])
            } else {
                None
            }
        },
        _ => None,
    }
}

/// The finding for a loop over `object.iter()` or `object.iter_mut()`.
pub open spec fn explicit_iter_diag(s: Seq<Slot>, expr: int, object: Seq<char>, mutable: bool) -> DiagnosticView {
    plain(
        Lint::ExplicitIterLoop,
        span_of(s, expr),
        "it is more idiomatic to loop over `&"@ + (if mutable {
            "mut "@
        } else {
            Seq::empty()
        }) + object + "` instead of `"@ + object + "."@ + (if mutable {
            "iter_mut"@
        } else {
            "iter"@
        }) + "()`"@,
    )
}

/// Whether the loop iterates `x.next()` of an iterator.
pub open spec fn iterates_next(s: Seq<Slot>, arg: int) -> bool {
    receiver_of(s, arg, "next"@).is_some() && match_trait_method_spec(s, arg, paths::ITERATOR@)
}

/// The receiver of `iter` or `iter_mut` that the loop iterates, and
/// whether it is `iter_mut`.
pub open spec fn iter_call(s: Seq<Slot>, arg: int) -> Option<(int, bool)> {
    match receiver_of(s, arg, "iter"@) {
        Some(recv) => Some((recv, false)),
        None => match receiver_of(s, arg, "iter_mut"@) {
            Some(recv) => Some((recv, true)),
            None => None,
        },
    }
}

/// Whether the expression at `at` has a type that can be iterated by
/// reference.
pub open spec fn has_ref_iterable_type(s: Seq<Slot>, at: int) -> bool {
    match ty_of(s, at) {
        Some(ty) => is_ref_iterable(ty),
        None => false,
    }
}

/// What the detectors on the iterated expression report for the loop
/// `for pat in arg` at `expr`: a loop over `x.iter()` or `x.iter_mut()`
/// where `&x` or `&mut x` would do; a loop over `x.next()`; and, unless
/// that last one fired, a loop over an `Option` or a `Result`.
pub open spec fn for_loop_arg_findings(src: Seq<char>, s: Seq<Slot>, pat: int, arg: int, expr: int) -> Seq<
    DiagnosticView,
> {
    match iter_call(s, arg) {
        Some((recv, mutable)) => (if has_ref_iterable_type(s, recv) {
            seq![explicit_iter_diag(s, expr, snippet_or(src, span_of(s, recv), "_"@), mutable)]
        } else {
            Seq::empty()
        }) + arg_type_findings(src, s, pat, arg),
        None => if iterates_next(s, arg) {
            seq![plain(Lint::IterNextLoop, span_of(s, expr), MSG_ITER_NEXT@)]
        } else {
            arg_type_findings(src, s, pat, arg)
        },
    }
}

/// Checks the iterated expression of a `for` loop.
pub fn check_for_loop_arg(
    source: &SourceMap,
    tree: &Tree,
    pat: usize,
    arg: usize,
    expr: usize,
    out: &mut Vec<Diagnostic>,
)
    requires
        pat < tree@.len(),
        arg < tree@.len(),
        expr < tree@.len(),
    ensures
        views(final(out)@) == views(old(out)@) + for_loop_arg_findings(
            source.src@,
            tree@,
            pat as int,
            arg as int,
            expr as int,
        ),
{
    let ghost before = views(out@);
    let mut next_loop_linted = false;
    let iter = receiver(tree, arg, "iter");
    let iter_mut = receiver(tree, arg, "iter_mut");
    let target = match iter {
        Some(recv) => Some((recv, false)),
        None => match iter_mut {
            Some(recv) => Some((recv, true)),
            None => None,
        },
    };
    let ghost mut first = Seq::<DiagnosticView>::empty();
    match target {
        Some((recv, mutable)) => {
            let iterable = match expr_ty(tree, recv) {
                Some(ty) => is_ref_iterable_type(ty),
                None => false,
            };
            if iterable {
                let object = snippet(source, tree.node(recv).span, "_");
                let mut msg = String::from_str("it is more idiomatic to loop over `&");
                if mutable {
                    msg.append("mut ");
                } else {
                    assert(msg@ + Seq::<char>::empty() =~= msg@);
                }
                msg.append(object.as_str());
                msg.append("` instead of `");
                msg.append(object.as_str());
                msg.append(".");
                msg.append(if mutable {
                    "iter_mut"
                } else {
                    "iter"
                });
                msg.append("()`");
                let d = span_lint(Lint::ExplicitIterLoop, tree.node(expr).span, msg);
                proof {
                    first = seq![d@];
                }
                emit(out, d);
            }
        },
        None => {
            if receiver(tree, arg, "next").is_some() && match_trait_method(tree, arg, paths::ITERATOR) {
                emit(out, span_lint(Lint::IterNextLoop, tree.node(expr).span, String::from_str(MSG_ITER_NEXT)));
                next_loop_linted = true;
            }
        },
    }
    if !next_loop_linted {
        assert(views(out@) =~= before + first);
        check_arg_type(source, tree, pat, arg, out);
        assert(views(out@) =~= before + (first + arg_type_findings(
            source.src@,
            tree@,
            pat as int,
            arg as int,
        )));
        assert(Seq::<DiagnosticView>::empty() + arg_type_findings(
            source.src@,
            tree@,
            pat as int,
            arg as int,
        ) =~= arg_type_findings(source.src@, tree@, pat as int, arg as int));
    }
}

/// The finding for the variable `name` that counts the passes of the loop
/// at `expr` over `arg`.
pub open spec fn counter_diag(src: Seq<char>, s: Seq<Slot>, arg: int, expr: int, name: Seq<char>) -> DiagnosticView {
    plain(
        Lint::ExplicitCounterLoop,
        span_of(s, expr),
        "the variable `"@ + name + "` is used as a loop counter. Consider using `for ("@ + name
            + ", item) in "@ + snippet_or(src, span_of(s, arg), "_"@) + ".enumerate()` or similar iterators"@,
    )
}

/// What the scan of the block at `block` finds of the variable `var`
/// outside of the loop at `expr`.
pub open spec fn initialization(s: Seq<Slot>, block: int, expr: int, var: u32) -> InitModel {
    walk_spec::<InitializeVisitor>(
        InitModel {
            root: block,
            end_expr: expr,
            var_id: var,
            state: VarState::IncrOnce,
            name: None,
            past_loop: false,
        },
        s,
        block,
        last_of(s, block),
    )
}

/// The finding for one candidate, if it is declared with the value zero
/// in the block around the loop and not written to between there and the
/// loop, nor written to after it.
pub open spec fn counter_finding(src: Seq<char>, s: Seq<Slot>, arg: int, expr: int, block: int, var: u32) -> Seq<
    DiagnosticView,
> {
    let m = initialization(s, block, expr, var);
    match m.name {
        Some(name) => if m.state == VarState::Warn {
            seq![counter_diag(src, s, arg, expr, name)]
        } else {
            Seq::empty()
        },
        None => Seq::empty(),
    }
}

/// The findings for the candidates from the `k`-th on, in the order in
/// which the loop body names them.
pub open spec fn counter_findings_from(
    src: Seq<char>,
    s: Seq<Slot>,
    arg: int,
    expr: int,
    block: int,
    states: Seq<(u32, VarState)>,
    k: int,
) -> Seq<DiagnosticView>
    decreases states.len() - k,
{
    if k < 0 || k >= states.len() {
        Seq::empty()
    } else {
        (if states[k].1 == VarState::IncrOnce {
            counter_finding(src, s, arg, expr, block, states[k].0)
        } else {
            Seq::empty()
        }) + counter_findings_from(src, s, arg, expr, block, states, k + 1)
    }
}

/// What the scan of the loop body at `body` finds: for each local
/// variable that the body names, whether it is incremented exactly once.
pub open spec fn increments(s: Seq<Slot>, body: int) -> IncrModel {
    walk_spec::<IncrementVisitor>(
        IncrModel { root: body, states: Seq::empty(), done: false },
        s,
        body,
        last_of(s, body),
    )
}

/// The scan of a loop body records each variable once: the record is a
/// map from variables.
pub proof fn lemma_increments_distinct(s: Seq<Slot>, body: int)
    ensures
        distinct_ids(increments(s, body).states),
{
    lemma_states_stay_distinct(
        IncrModel { root: body, states: Seq::empty(), done: false },
        s,
        body,
        last_of(s, body),
    );
}

/// What the explicit-counter detector reports for the loop at `expr` over
/// `arg` with the body `body`.
pub open spec fn explicit_counter_findings(src: Seq<char>, s: Seq<Slot>, arg: int, body: int, expr: int) -> Seq<
    DiagnosticView,
> {
    match enclosing_block_of(s, expr) {
        Some(block) => counter_findings_from(src, s, arg, expr, block, increments(s, body).states, 0),
        None => Seq::empty(),
    }
}

/// Checks for variables that count the passes of a `for` loop by hand.
pub fn check_for_loop_explicit_counter(
    source: &SourceMap,
    tree: &Tree,
    arg: usize,
    body: usize,
    expr: usize,
    out: &mut Vec<Diagnostic>,
)
    requires
        arg < tree@.len(),
        body < tree@.len(),
        expr < tree@.len(),
    ensures
        views(final(out)@) == views(old(out)@) + explicit_counter_findings(
            source.src@,
            tree@,
            arg as int,
            body as int,
            expr as int,
        ),
{
    // Look for variables that are incremented once per loop iteration.
    let mut visitor = IncrementVisitor { root: body, states: Vec::new(), done: false };
    assert(visitor.model().states =~= Seq::empty());
    walk(&mut visitor, tree, body);
    // For each candidate, check the parent block to see if
    // it's initialized to zero at the start of the loop.
    let block = match get_enclosing_block(tree, expr) {
        Some(block) => block,
        None => {
            assert(views(out@) + Seq::<DiagnosticView>::empty() =~= views(out@));
            return ;
        },
    };
    let n = visitor.states.len();
    let ghost src = source.src@;
    let ghost states = visitor.states@;
    let ghost before = views(out@);
    let mut k: usize = 0;
    assert(before + Seq::<DiagnosticView>::empty() =~= before);
    let ghost mut done = Seq::<DiagnosticView>::empty();
    while k < n
        invariant
            k <= n == visitor.states.len(),
            states == visitor.states@,
            src == source.src@,
            block < tree@.len(),
            arg < tree@.len(),
            expr < tree@.len(),
            views(out@) == before + done,
            done + counter_findings_from(src, tree@, arg as int, expr as int, block as int, states, k as int)
                == counter_findings_from(src, tree@, arg as int, expr as int, block as int, states, 0),
        decreases n - k,
    {
        let ghost rest = counter_findings_from(
            src,
            tree@,
            arg as int,
            expr as int,
            block as int,
            states,
            k + 1,
        );
        let ghost here = if states[k as int].1 == VarState::IncrOnce {
            counter_finding(src, tree@, arg as int, expr as int, block as int, states[k as int].0)
        } else {
            Seq::empty()
        };
        assert(counter_findings_from(src, tree@, arg as int, expr as int, block as int, states, k as int)
            == here + rest);
        assert(done + (here + rest) =~= (done + here) + rest);
        if visitor.states[k].1 == VarState::IncrOnce {
            let mut visitor2 = InitializeVisitor {
                root: block,
                end_expr: expr,
                var_id: visitor.states[k].0,
                state: VarState::IncrOnce,
                name: None,
                past_loop: false,
            };
            walk(&mut visitor2, tree, block);
            let mut fired = false;
            if visitor2.state == VarState::Warn {
                if let Some(name) = visitor2.name {
                    let mut msg = String::from_str("the variable `");
                    msg.append(name.as_str());
                    msg.append("` is used as a loop counter. Consider using `for (");
                    msg.append(name.as_str());
                    msg.append(", item) in ");
                    msg.append(snippet(source, tree.node(arg).span, "_").as_str());
                    msg.append(".enumerate()` or similar iterators");
                    emit(out, span_lint(Lint::ExplicitCounterLoop, tree.node(expr).span, msg));
                    fired = true;
                }
            }
            proof {
                if !fired {
                    assert(here =~= Seq::empty());
                    assert(done + here =~= done);
                } else {
                    assert(views(out@) =~= before + (done + here));
                }
                done = done + here;
            }
        } else {
            assert(done + here =~= done);
        }
        k += 1;
    }
    assert(done + Seq::<DiagnosticView>::empty() =~= done);
}

/// Whether the pattern at `pat` binds nothing that `body` uses: it is a
/// wildcard, or a plain binding whose name starts with an underscore and
/// is not used in `body`.
pub open spec fn pat_is_wild_spec(s: Seq<Slot>, pat: int, body: int) -> bool {
    match pat_kind_of(s, pat) {
        Some(PatKind::Wild) => true,
        Some(PatKind::Binding { name, has_sub, .. }) => !has_sub && is_prefix("_"@, name@) && !used_in(
            s,
            body,
            name@,
        ),
        _ => false,
    }
}

/// Return true if the pattern is a `PatWild` or an ident prefixed with
/// `'_'` that the body does not use.
pub fn pat_is_wild(tree: &Tree, pat: usize, body: usize) -> (r: bool)
    requires
        pat < tree@.len(),
        body < tree@.len(),
    ensures
        r == pat_is_wild_spec(tree@, pat as int, body as int),
{
    match pat_kind(tree, pat) {
        Some(PatKind::Wild) => true,
        Some(PatKind::Binding { name, has_sub, .. }) => !*has_sub && starts_with(name.as_str(), "_")
            && !is_used(tree, body, name.as_str()),
        _ => false,
    }
}

/// The side of a pair pattern that is kept, with its name, where exactly
/// one side binds nothing that is used: the value if that side is the
/// key, and the key if it is the value.
pub open spec fn kept_side(s: Seq<Slot>, pat: int, body: int) -> Option<(int, Seq<char>)> {
    match pat_kind_of(s, pat) {
        Some(PatKind::Tuple) => {
            let kids = children_of(s, pat);
            if kids.len() != 2 {
                None
            } else if pat_is_wild_spec(s, kids[0], body) && !pat_is_wild_spec(s, kids[1], body) {
                Some((kids[1], "value"@))
            } else if pat_is_wild_spec(s, kids[1], body) && !pat_is_wild_spec(s, kids[0], body) {
                Some((kids[0], "key"@))
            } else {
                None
            }
        },
        _ => None,
    }
}

/// The map that the loop iterates: the expression itself, or what it
/// borrows immutably; none if it borrows mutably.
pub open spec fn iterated_map(s: Seq<Slot>, arg: int) -> Option<int> {
    match expr_kind_of(s, arg) {
        Some(ExprKind::AddrOf(crate::node::Mutability::Mutable)) => None,
        Some(ExprKind::AddrOf(crate::node::Mutability::Immutable)) => if children_of(s, arg).len() == 1 {
            Some(children_of(s, arg)[0])
        } else {
            Some(arg)
        },
        _ => Some(arg),
    }
}

/// Whether the expression at `at` is a hash map or a B-tree map, or a
/// reference to one.
pub open spec fn is_map(s: Seq<Slot>, at: int) -> bool {
    match ty_of(s, at) {
        Some(ty) => match_type_spec(ty.peeled(), paths::HASHMAP@) || match_type_spec(
            ty.peeled(),
            paths::BTREEMAP@,
        ),
        None => false,
    }
}

pub const HELP_MAP_METHOD: &'static str = "use the corresponding method";

/// What the map detector reports for `for pat in arg body` at `expr`: a
/// finding if `pat` is a pair of which one side binds nothing that is
/// used, and `arg` is a map that is not borrowed mutably.
pub open spec fn map_kv_findings(src: Seq<char>, s: Seq<Slot>, pat: int, arg: int, body: int, expr: int) -> Seq<
    DiagnosticView,
> {
    match (kept_side(s, pat, body), iterated_map(s, arg)) {
        (Some((kept, kind)), Some(map)) => if is_map(s, map) {
            seq![
                with_child(
                    plain(
                        Lint::ForKvMap,
                        span_of(s, expr),
                        "you seem to want to iterate on a map's "@ + kind + "s"@,
                    ),
                    suggestion2_of(
                        HELP_MAP_METHOD@,
                        ReplacementView { span: span_of(s, pat), text: snippet_or(src, span_of(s, kept), kind) },
                        ReplacementView {
                            span: span_of(s, arg),
                            text: maybe_par_spec(sugg_of(src, s, map, "map"@)).text + "."@ + kind + "s()"@,
                        },
                    ),
                ),
            ]
        } else {
            Seq::empty()
        },
        _ => Seq::empty(),
    }
}

/// Check for the `FOR_KV_MAP` lint.
pub fn check_for_loop_over_map_kv(
    source: &SourceMap,
    tree: &Tree,
    pat: usize,
    arg: usize,
    body: usize,
    expr: usize,
    out: &mut Vec<Diagnostic>,
)
    requires
        pat < tree@.len(),
        arg < tree@.len(),
        body < tree@.len(),
        expr < tree@.len(),
    ensures
        views(final(out)@) == views(old(out)@) + map_kv_findings(
            source.src@,
            tree@,
            pat as int,
            arg as int,
            body as int,
            expr as int,
        ),
{
    assert(views(out@) + Seq::<DiagnosticView>::empty() =~= views(out@));
    let is_tuple = match pat_kind(tree, pat) {
        Some(PatKind::Tuple) => true,
        _ => false,
    };
    if !is_tuple {
        return ;
    }
    let sides = tree.children(pat);
    if sides.len() != 2 {
        return ;
    }
    let key_unused = pat_is_wild(tree, sides[0], body);
    let value_unused = pat_is_wild(tree, sides[1], body);
    let (new_pat, kind) = if key_unused && !value_unused {
        (sides[1], "value")
    } else if value_unused && !key_unused {
        (sides[0], "key")
    } else {
        return ;
    };
    let map = match expr_kind(tree, arg) {
        Some(ExprKind::AddrOf(crate::node::Mutability::Mutable)) => {
            // for _ in &mut _, there is no {values,keys}_mut method
            return ;
        },
        Some(ExprKind::AddrOf(crate::node::Mutability::Immutable)) => {
            let inner = tree.children(arg);
            if inner.len() == 1 {
                inner[0]
            } else {
                arg
            }
        },
        _ => arg,
    };
    let is_map = match expr_ty(tree, map) {
        Some(ty) => {
            let ty = walk_ptrs_ty(ty);
            match_type(ty, paths::HASHMAP) || match_type(ty, paths::BTREEMAP)
        },
        None => false,
    };
    if !is_map {
        return ;
    }
    let mut msg = String::from_str("you seem to want to iterate on a map's ");
    msg.append(kind);
    msg.append("s");
    let mut method = Sugg::hir(source, tree, map, "map").maybe_par().text;
    method.append(".");
    method.append(kind);
    method.append("s()");
    let d = span_lint_and_then(
        Lint::ForKvMap,
        tree.node(expr).span,
        msg,
        multispan_sugg(
            String::from_str(HELP_MAP_METHOD),
            Replacement { span: tree.node(pat).span, text: snippet(source, tree.node(new_pat).span, kind) },
            Replacement { span: tree.node(arg).span, text: method },
        ),
    );
    emit(out, d);
}

/// What the detectors on `for` loops report for the loop `for pat in arg
/// body` at `expr`, in the order in which they run.
pub open spec fn for_loop_findings(cx: LateContext, s: Seq<Slot>, pat: int, arg: int, body: int, expr: int) -> Seq<
    DiagnosticView,
> {
    range_loop_findings(cx, s, pat, arg, body, expr) + reverse_range_findings(
        cx.source.src@,
        s,
        arg,
        expr,
    ) + for_loop_arg_findings(cx.source.src@, s, pat, arg, expr) + explicit_counter_findings(
        cx.source.src@,
        s,
        arg,
        body,
        expr,
    ) + map_kv_findings(cx.source.src@, s, pat, arg, body, expr)
}

/// Runs the detectors on `for` loops.
pub fn check_for_loop(
    cx: &LateContext,
    tree: &Tree,
    pat: usize,
    arg: usize,
    body: usize,
    expr: usize,
    out: &mut Vec<Diagnostic>,
)
    requires
        pat < tree@.len(),
        arg < tree@.len(),
        body < tree@.len(),
        expr < tree@.len(),
    ensures
        views(final(out)@) == views(old(out)@) + for_loop_findings(
            *cx,
            tree@,
            pat as int,
            arg as int,
            body as int,
            expr as int,
        ),
{
    let ghost before = views(out@);
    let ghost a = range_loop_findings(*cx, tree@, pat as int, arg as int, body as int, expr as int);
    let ghost b = reverse_range_findings(cx.source.src@, tree@, arg as int, expr as int);
    let ghost c = for_loop_arg_findings(cx.source.src@, tree@, pat as int, arg as int, expr as int);
    let ghost d = explicit_counter_findings(cx.source.src@, tree@, arg as int, body as int, expr as int);
    let ghost e = map_kv_findings(cx.source.src@, tree@, pat as int, arg as int, body as int, expr as int);
    check_for_loop_range(cx, tree, pat, arg, body, expr, out);
    check_for_loop_reverse_range(&cx.source, tree, arg, expr, out);
    check_for_loop_arg(&cx.source, tree, pat, arg, expr, out);
    check_for_loop_explicit_counter(&cx.source, tree, arg, body, expr, out);
    check_for_loop_over_map_kv(&cx.source, tree, pat, arg, body, expr, out);
    assert(((((before + a) + b) + c) + d) + e =~= before + ((((a + b) + c) + d) + e));
}

/// The expression that initialises the `let` with which the block at `b`
/// begins.
pub open spec fn first_stmt_init(s: Seq<Slot>, b: int) -> Option<int> {
    let stmts = block_stmts(s, b);
    if stmts.len() == 0 {
        None
    } else {
        match (s[stmts[0]].node.kind, only_child(s, stmts[0])) {
            (NodeKind::Stmt(StmtKind::Decl), Some(d)) => {
                let parts = children_of(s, d);
                if s[d].node.kind == NodeKind::Decl(DeclKind::Local { has_init: true }) && parts.len() == 2 {
                    Some(parts[1])
                } else {
                    None
                }
            },
            _ => None,
        }
    }
}

/// The expression with which the block at `b` begins: its trailing
/// expression if it has no statements, and else its first statement if
/// that is an expression and the block has no trailing expression.
pub open spec fn first_expr(s: Seq<Slot>, b: int) -> Option<int> {
    let stmts = block_stmts(s, b);
    match block_tail(s, b) {
        Some(e) => if stmts.len() == 0 {
            Some(e)
        } else {
            None
        },
        None => if stmts.len() > 0 {
            match s[stmts[0]].node.kind {
                NodeKind::Stmt(StmtKind::Expr) | NodeKind::Stmt(StmtKind::Semi) => only_child(s, stmts[0]),
                _ => None,
            }
        } else {
            None
        },
    }
}

/// Whether the expression at `at` is a bare `break`, maybe within blocks.
pub open spec fn is_break(s: Seq<Slot>, at: int) -> bool
    decreases s.len() - at,
{
    match expr_kind_of(s, at) {
        Some(ExprKind::Break { labelled }) => !labelled,
        Some(ExprKind::Block) => match only_child(s, at) {
            Some(b) => match first_expr(s, b) {
                Some(e) => at < e < s.len() && is_break(s, e),
                None => false,
            },
            None => false,
        },
        _ => false,
    }
}

/// If a block begins with a `let` binding that has an initialiser, return
/// the initialiser.
pub fn extract_expr_from_first_stmt(tree: &Tree, block: usize) -> (r: Option<usize>)
    requires
        block < tree@.len(),
    ensures
        match r {
            Some(e) => first_stmt_init(tree@, block as int) == Some(e as int) && block < e < tree@.len(),
            None => first_stmt_init(tree@, block as int).is_none(),
        },
{
    let (stmts, _) = block_parts(tree, block);
    if stmts.len() == 0 {
        return None;
    }
    assert(stmts@.map_values(|k: usize| k as int)[0] == stmts[0]);
    let is_decl = match &tree.node(stmts[0]).kind {
        NodeKind::Stmt(StmtKind::Decl) => true,
        _ => false,
    };
    if !is_decl {
        return None;
    }
    let decl = tree.children(stmts[0]);
    if decl.len() != 1 {
        return None;
    }
    let has_init = match &tree.node(decl[0]).kind {
        NodeKind::Decl(DeclKind::Local { has_init }) => *has_init,
        _ => false,
    };
    if !has_init {
        return None;
    }
    let parts = tree.children(decl[0]);
    if parts.len() == 2 {
        Some(parts[1])
    } else {
        None
    }
}

/// If a block begins with an expression (with or without semicolon),
/// return it.
pub fn extract_first_expr(tree: &Tree, block: usize) -> (r: Option<usize>)
    requires
        block < tree@.len(),
    ensures
        match r {
            Some(e) => first_expr(tree@, block as int) == Some(e as int) && block < e < tree@.len(),
            None => first_expr(tree@, block as int).is_none(),
        },
{
    let (stmts, tail) = block_parts(tree, block);
    match tail {
        Some(e) => {
            if stmts.len() == 0 {
                Some(e)
            } else {
                None
            }
        },
        None => {
            if stmts.len() == 0 {
                return None;
            }
            assert(stmts@.map_values(|k: usize| k as int)[0] == stmts[0]);
            let is_expr = match &tree.node(stmts[0]).kind {
                NodeKind::Stmt(StmtKind::Expr) => true,
                NodeKind::Stmt(StmtKind::Semi) => true,
                _ => false,
            };
            if !is_expr {
                return None;
            }
            let inner = tree.children(stmts[0]);
            if inner.len() == 1 {
                Some(inner[0])
            } else {
                None
            }
        },
    }
}

/// Return true if expr contains a single break expr (maybe within a
/// block).
pub fn is_break_expr(tree: &Tree, at: usize) -> (r: bool)
    requires
        at < tree@.len(),
    ensures
        r == is_break(tree@, at as int),
    decreases tree@.len() - at,
{
    match expr_kind(tree, at) {
        Some(ExprKind::Break { labelled }) => !*labelled,
        Some(ExprKind::Block) => {
            let inner = tree.children(at);
            if inner.len() != 1 {
                return false;
            }
            match extract_first_expr(tree, inner[0]) {
                Some(e) => is_break_expr(tree, e),
                None => false,
            }
        },
        _ => false,
    }
}

/// Whether the variable that the expression at `iter_expr` names, as a
/// local or as a capture, is referred to again behind that expression, in
/// the block that declares it.
pub open spec fn iterator_used_after(s: Seq<Slot>, iter_expr: int) -> bool {
    match variable_of(s, iter_expr) {
        Some(id) => match position_of(s, id, 0) {
            Some(decl) => match enclosing_block_of(s, decl) {
                Some(block) => used_after(s, block, iter_expr, id) && block <= iter_expr <= last_of(
                    s,
                    block,
                ),
                None => false,
            },
            None => false,
        },
        None => false,
    }
}

/// Whether the iterator of a `while let` loop is used after the loop.
pub fn is_iterator_used_after_while_let(tree: &Tree, iter_expr: usize) -> (r: bool)
    requires
        iter_expr < tree@.len(),
    ensures
        r == iterator_used_after(tree@, iter_expr as int),
{
    let def_id = match variable(tree, iter_expr) {
        Some(id) => id,
        None => {
            return false;
        },
    };
    let decl = match tree.find(def_id) {
        Some(decl) => decl,
        None => {
            return false;
        },
    };
    match get_enclosing_block(tree, decl) {
        Some(block) => block <= iter_expr && iter_expr <= tree.last(block) && is_used_after(
            tree,
            block,
            iter_expr,
            def_id,
        ),
        None => false,
    }
}

pub const MSG_WHILE_LET_LOOP: &'static str = "this loop could be written as a `while let` loop";

pub const MSG_WHILE_LET_ON_ITERATOR: &'static str = "this loop could be written as a `for` loop";

pub const HELP_TRY: &'static str = "try";

/// The condition of the `while let` that the loop body at `block` stands
/// for, as the positions of its pattern and of its scrutinee: the block
/// begins with a `match` or an `if let` of two plain arms of which the
/// second only breaks.
pub open spec fn while_let_condition(s: Seq<Slot>, block: int) -> Option<(int, int)> {
    let inner = match first_stmt_init(s, block) {
        Some(e) => Some(e),
        None => first_expr(s, block),
    };
    match inner {
        Some(m) => match expr_kind_of(s, m) {
            Some(ExprKind::Match(source)) => {
                let parts = children_of(s, m);
                if (source is Normal || source is IfLetDesugar) && parts.len() == 3 {
                    match (plain_arm(s, parts[1]), plain_arm(s, parts[2])) {
                        (Some((pat, _)), Some((_, break_body))) => if is_break(s, break_body) {
                            Some((pat, parts[0]))
                        } else {
                            None
                        },
                        _ => None,
                    }
                } else {
                    None
                }
            },
            _ => None,
        },
        None => None,
    }
}

/// What the detectors on `loop` report for the loop at `expr`: an empty
/// loop, and a loop that could be a `while let`, unless it comes from a
/// macro defined elsewhere.
pub open spec fn loop_findings(cx: LateContext, s: Seq<Slot>, expr: int) -> Seq<DiagnosticView> {
    match (expr_kind_of(s, expr), only_child(s, expr)) {
        (Some(ExprKind::Loop), Some(block)) => (if children_of(s, block).len() == 0 {
            seq![plain(Lint::EmptyLoop, span_of(s, expr), MSG_EMPTY_LOOP@)]
        } else {
            Seq::empty()
        }) + (match while_let_condition(s, block) {
            Some((pat, scrutinee)) => if in_external_macro_spec(
                cx.source.src@,
                cx.source.expansions@,
                span_of(s, expr),
            ) {
                Seq::empty()
            } else {
                seq![
                    with_child(
                        plain(Lint::WhileLetLoop, span_of(s, expr), MSG_WHILE_LET_LOOP@),
                        suggestion_of(
                            span_of(s, expr),
                            HELP_TRY@,
                            "while let "@ + snippet_or(cx.source.src@, span_of(s, pat), ".."@) + " = "@
                                + snippet_or(cx.source.src@, span_of(s, scrutinee), ".."@) + " { .. }"@,
                        ),
                    ),
                ]
            },
            None => Seq::empty(),
        }),
        _ => Seq::empty(),
    }
}

/// Checks a `loop` for an empty body and for a body that begins by
/// breaking on a failed match.
pub fn check_loop(cx: &LateContext, tree: &Tree, expr: usize, out: &mut Vec<Diagnostic>)
    requires
        expr < tree@.len(),
    ensures
        views(final(out)@) == views(old(out)@) + loop_findings(*cx, tree@, expr as int),
{
    let ghost before = views(out@);
    assert(before + Seq::<DiagnosticView>::empty() =~= before);
    let is_loop = match expr_kind(tree, expr) {
        Some(ExprKind::Loop) => true,
        _ => false,
    };
    if !is_loop {
        return ;
    }
    let inner = tree.children(expr);
    if inner.len() != 1 {
        return ;
    }
    let block = inner[0];
    let ghost mut first = Seq::<DiagnosticView>::empty();
    // also check for empty `loop {}` statements
    if tree.children(block).len() == 0 {
        let d = span_lint(Lint::EmptyLoop, tree.node(expr).span, String::from_str(MSG_EMPTY_LOOP));
        proof {
            first = seq![d@];
        }
        emit(out, d);
    }
    assert(views(out@) =~= before + first);
    assert(before + (first + Seq::<DiagnosticView>::empty()) =~= before + first);
    // extract the expression from the first statement (if any) in a block
    // or extract the first expression (if any) from the block
    let inner = match extract_expr_from_first_stmt(tree, block) {
        Some(e) => Some(e),
        None => extract_first_expr(tree, block),
    };
    let m = match inner {
        Some(m) => m,
        None => {
            return ;
        },
    };
    // ensure "if let" compatible match structure
    let compatible = match expr_kind(tree, m) {
        Some(ExprKind::Match(MatchSource::Normal)) => true,
        Some(ExprKind::Match(MatchSource::IfLetDesugar { .. })) => true,
        _ => false,
    };
    if !compatible {
        return ;
    }
    let parts = tree.children(m);
    if parts.len() != 3 {
        return ;
    }
    let (pat, scrutinee) = match (plain_arm_at(tree, parts[1]), plain_arm_at(tree, parts[2])) {
        (Some((pat, _)), Some((_, break_body))) => {
            if !is_break_expr(tree, break_body) {
                return ;
            }
            (pat, parts[0])
        },
        _ => {
            return ;
        },
    };
    if in_external_macro(&cx.source, tree.node(expr).span) {
        return ;
    }
    let mut sug = String::from_str("while let ");
    sug.append(snippet(&cx.source, tree.node(pat).span, "..").as_str());
    sug.append(" = ");
    sug.append(snippet(&cx.source, tree.node(scrutinee).span, "..").as_str());
    sug.append(" { .. }");
    let d = span_lint_and_then(
        Lint::WhileLetLoop,
        tree.node(expr).span,
        String::from_str(MSG_WHILE_LET_LOOP),
        span_suggestion(tree.node(expr).span, String::from_str(HELP_TRY), sug),
    );
    emit(out, d);
    assert(views(out@) =~= before + (first + seq![d@]));
}

/// The scrutinee and the first pattern of the `match` at `expr` that a
/// `while let` stands for: the match has two arms, and its first arm has a
/// pattern.
pub open spec fn while_let_parts(s: Seq<Slot>, expr: int) -> Option<(int, int)> {
    let parts = children_of(s, expr);
    if parts.len() == 3 {
        match (arm_of(s, parts[1]), arm_of(s, parts[2])) {
            (Some(first), Some(_)) => if first.pats.len() >= 1 {
                Some((parts[0], first.pats[0]))
            } else {
                None
            },
            _ => None,
        }
    } else {
        None
    }
}

/// Whether the node at `expr` is the `match` of a `while let`.
pub open spec fn is_while_let(s: Seq<Slot>, expr: int) -> bool {
    expr_kind_of(s, expr) == Some(ExprKind::Match(MatchSource::WhileLetDesugar))
}

/// The loop variable and the iterator of the `while let Some(var) =
/// iter.next()` whose pattern is at `pat` and whose scrutinee is at
/// `scrutinee`: `next` is the method of iterators, and the iterator is a
/// bare variable, local or captured, that is not referred to after the
/// loop.
pub open spec fn iterated_by_next(s: Seq<Slot>, scrutinee: int, pat: int) -> Option<(int, int)> {
    match (pat_kind_of(s, pat), receiver_and_args(s, scrutinee)) {
        (Some(PatKind::TupleStruct { path }), Some(iter_expr)) => {
            let pat_args = children_of(s, pat);
            if path@.len() > 0 && path@.last()@ == "Some"@ && pat_args.len() >= 1 && method_name(
                s,
                scrutinee,
            ) == Some("next"@) && match_trait_method_spec(s, scrutinee, paths::ITERATOR@)
                && single_name_of(s, iter_expr).is_some() && variable_of(s, iter_expr).is_some()
                && !iterator_used_after(s, iter_expr) {
                Some((pat_args[0], iter_expr))
            } else {
                None
            }
        },
        _ => None,
    }
}

/// The name of the method that the expression at `at` calls.
pub open spec fn method_name(s: Seq<Slot>, at: int) -> Option<Seq<char>> {
    match expr_kind_of(s, at) {
        Some(ExprKind::MethodCall { name, .. }) => Some(name@),
        _ => None,
    }
}

/// The receiver of the method call at `at`, whatever its arguments.
pub open spec fn receiver_and_args(s: Seq<Slot>, at: int) -> Option<int> {
    if method_name(s, at).is_some() && children_of(s, at).len() >= 1 {
        Some(children_of(s, at)[0])
    } else {
        None
    }
}

/// What the detector for `while let` loops over iterators reports for the
/// node at `expr`.
pub open spec fn while_let_on_iterator_findings(src: Seq<char>, s: Seq<Slot>, expr: int) -> Seq<
    DiagnosticView,
> {
    if is_while_let(s, expr) {
        match while_let_parts(s, expr) {
            Some((scrutinee, pat)) => match iterated_by_next(s, scrutinee, pat) {
                Some((loop_var, iterator)) => seq![
                    with_child(
                        plain(Lint::WhileLetOnIterator, span_of(s, expr), MSG_WHILE_LET_ON_ITERATOR@),
                        suggestion_of(
                            span_of(s, expr),
                            HELP_TRY@,
                            "for "@ + snippet_or(src, span_of(s, loop_var), "_"@) + " in "@ + snippet_or(
                                src,
                                span_of(s, iterator),
                                "_"@,
                            ) + " { .. }"@,
                        ),
                    ),
                ],
                None => Seq::empty(),
            },
            None => Seq::empty(),
        }
    } else {
        Seq::empty()
    }
}

/// The defect that the detector meets at `expr`: the `match` of a `while
/// let` that does not have its two arms.
pub open spec fn while_let_defect(s: Seq<Slot>, expr: int) -> Option<Defect> {
    if is_while_let(s, expr) && while_let_parts(s, expr).is_none() {
        Some(Defect::MalformedWhileLet)
    } else {
        None
    }
}

/// Checks for a `while let Some(x) = iter.next()` that could be a `for`
/// loop.
pub fn check_while_let_on_iterator(source: &SourceMap, tree: &Tree, expr: usize, out: &mut Vec<Diagnostic>) -> (r:
    Result<(), Defect>)
    requires
        expr < tree@.len(),
    ensures
        views(final(out)@) == views(old(out)@) + while_let_on_iterator_findings(
            source.src@,
            tree@,
            expr as int,
        ),
        r == match while_let_defect(tree@, expr as int) {
            Some(d) => Err::<(), Defect>(d),
            None => Ok(()),
        },
{
    assert(views(out@) + Seq::<DiagnosticView>::empty() =~= views(out@));
    let is_while_let = match expr_kind(tree, expr) {
        Some(ExprKind::Match(MatchSource::WhileLetDesugar)) => true,
        _ => false,
    };
    if !is_while_let {
        return Ok(());
    }
    let parts = tree.children(expr);
    if parts.len() != 3 {
        return Err(Defect::MalformedWhileLet);
    }
    let pat = match (arm(tree, parts[1]), arm(tree, parts[2])) {
        (Some(first), Some(_)) => {
            if first.pats.len() >= 1 {
                assert(first.parts().pats[0] == first.pats[0]);
                first.pats[0]
            } else {
                return Err(Defect::MalformedWhileLet);
            }
        },
        _ => {
            return Err(Defect::MalformedWhileLet);
        },
    };
    let scrutinee = parts[0];
    let path = match pat_kind(tree, pat) {
        Some(PatKind::TupleStruct { path }) => path,
        _ => {
            return Ok(());
        },
    };
    let is_next = match expr_kind(tree, scrutinee) {
        Some(ExprKind::MethodCall { name, .. }) => text_eq(name.as_str(), "next"),
        _ => {
            return Ok(());
        },
    };
    let method_args = tree.children(scrutinee);
    let pat_args = tree.children(pat);
    if method_args.len() == 0 || pat_args.len() == 0 || path.len() == 0 {
        return Ok(());
    }
    let iter_expr = method_args[0];
    if is_next && match_trait_method(tree, scrutinee, paths::ITERATOR) && text_eq(
        path[path.len() - 1].as_str(),
        "Some",
    ) && single_name(tree, iter_expr).is_some() && variable(tree, iter_expr).is_some()
        && !is_iterator_used_after_while_let(tree, iter_expr) {
        let iterator = snippet(source, tree.node(iter_expr).span, "_");
        let loop_var = snippet(source, tree.node(pat_args[0]).span, "_");
        let mut sug = String::from_str("for ");
        sug.append(loop_var.as_str());
        sug.append(" in ");
        sug.append(iterator.as_str());
        sug.append(" { .. }");
        let d = span_lint_and_then(
            Lint::WhileLetOnIterator,
            tree.node(expr).span,
            String::from_str(MSG_WHILE_LET_ON_ITERATOR),
            span_suggestion(tree.node(expr).span, String::from_str(HELP_TRY), sug),
        );
        emit(out, d);
    }
    Ok(())
}

/// What the loop detectors report for the expression at `expr`.
pub open spec fn expr_findings(cx: LateContext, s: Seq<Slot>, expr: int) -> Seq<DiagnosticView> {
    (match for_loop_of(s, expr) {
        Some(f) => for_loop_findings(cx, s, f.pat as int, f.arg as int, f.body as int, expr),
        None => Seq::empty(),
    }) + loop_findings(cx, s, expr) + while_let_on_iterator_findings(cx.source.src@, s, expr)
}

/// What the loop detectors report for the statement at `stmt`: an
/// iterator that is collected for nothing.
pub open spec fn stmt_findings(s: Seq<Slot>, stmt: int) -> Seq<DiagnosticView> {
    match (s[stmt].node.kind, only_child(s, stmt)) {
        (NodeKind::Stmt(StmtKind::Semi), Some(e)) => if receiver_of(s, e, "collect"@).is_some()
            && match_trait_method_spec(s, e, paths::ITERATOR@) {
            seq![plain(Lint::UnusedCollect, span_of(s, e), MSG_UNUSED_COLLECT@)]
        } else {
            Seq::empty()
        },
        _ => Seq::empty(),
    }
}

/// The detectors on loops.
#[derive(Copy, Clone, Debug)]
pub struct Pass;

impl Pass {
    /// The lints of this pass.
    pub fn get_lints(&self) -> (lints: Vec<Lint>)
        ensures
            lints@ == seq![
                Lint::NeedlessRangeLoop,
                Lint::ExplicitIterLoop,
                Lint::IterNextLoop,
                Lint::ForLoopOverResult,
                Lint::ForLoopOverOption,
                Lint::WhileLetLoop,
                Lint::UnusedCollect,
                Lint::ReverseRangeLoop,
                Lint::ExplicitCounterLoop,
                Lint::EmptyLoop,
                Lint::WhileLetOnIterator,
                Lint::ForKvMap,
            ],
    {
        vec![
            Lint::NeedlessRangeLoop,
            Lint::ExplicitIterLoop,
            Lint::IterNextLoop,
            Lint::ForLoopOverResult,
            Lint::ForLoopOverOption,
            Lint::WhileLetLoop,
            Lint::UnusedCollect,
            Lint::ReverseRangeLoop,
            Lint::ExplicitCounterLoop,
            Lint::EmptyLoop,
            Lint::WhileLetOnIterator,
            Lint::ForKvMap,
        ]
    }

    /// Runs the loop detectors on the expression at `expr`. The result is
    /// an error if the expression is a construct made by the tree's
    /// provider that does not have the shape it must have.
    pub fn check_expr(&mut self, cx: &LateContext, tree: &Tree, expr: usize, out: &mut Vec<Diagnostic>) -> (r:
        Result<(), Defect>)
        requires
            expr < tree@.len(),
        ensures
            views(final(out)@) == views(old(out)@) + expr_findings(*cx, tree@, expr as int),
            r == match while_let_defect(tree@, expr as int) {
                Some(d) => Err::<(), Defect>(d),
                None => Ok(()),
            },
    {
        let ghost before = views(out@);
        let ghost a = match for_loop_of(tree@, expr as int) {
            Some(f) => for_loop_findings(*cx, tree@, f.pat as int, f.arg as int, f.body as int, expr as int),
            None => Seq::empty(),
        };
        let ghost b = loop_findings(*cx, tree@, expr as int);
        let ghost c = while_let_on_iterator_findings(cx.source.src@, tree@, expr as int);
        if let Some(f) = for_loop(tree, expr) {
            check_for_loop(cx, tree, f.pat, f.arg, f.body, expr, out);
        } else {
            assert(before + a =~= before);
        }
        // check for `loop { if let {} else break }` that could be `while let`
        // (also matches an explicit "match" instead of "if let")
        // (even if the "match" or "if let" is used for declaration)
        check_loop(cx, tree, expr, out);
        let r = check_while_let_on_iterator(&cx.source, tree, expr, out);
        assert(((before + a) + b) + c =~= before + ((a + b) + c));
        r
    }

    /// Runs the loop detectors on the statement at `stmt`.
    pub fn check_stmt(&mut self, tree: &Tree, stmt: usize, out: &mut Vec<Diagnostic>)
        requires
            stmt < tree@.len(),
        ensures
            views(final(out)@) == views(old(out)@) + stmt_findings(tree@, stmt as int),
    {
        assert(views(out@) + Seq::<DiagnosticView>::empty() =~= views(out@));
        let is_semi = match &tree.node(stmt).kind {
            NodeKind::Stmt(StmtKind::Semi) => true,
            _ => false,
        };
        if !is_semi {
            return ;
        }
        let inner = tree.children(stmt);
        if inner.len() != 1 {
            return ;
        }
        let expr = inner[0];
        if receiver(tree, expr, "collect").is_some() && match_trait_method(tree, expr, paths::ITERATOR) {
            emit(out, span_lint(Lint::UnusedCollect, tree.node(expr).span, String::from_str(MSG_UNUSED_COLLECT)));
        }
    }
}

} // verus!
