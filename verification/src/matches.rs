//! Detectors on `match` expressions: a match that is an `if let` in
//! disguise, a match on a boolean, arms that all take a reference, and
//! integer arms that overlap.

use vstd::prelude::*;
use vstd::string::*;
use crate::context::LateContext;
use crate::diagnostics::{
    emit, note_of, plain, span_lint, span_lint_and_then, span_note_and_lint, span_suggestion,
    suggestion_of, views, with_child, Defect, Diagnostic, DiagnosticView, Lint,
};
use crate::node::{BindingMode, ExprKind, Lit, MatchSource, Mutability, NodeKind, PatKind};
use crate::paths;
use crate::query::{
    arm, arm_of, eval_integral, expr_kind, expr_kind_of, expr_ty, integral_of, only_child, pat_kind,
    pat_kind_of, plain_arm, plain_arm_at, span_of, ty_of,
};
use crate::source::{
    expr_block, expr_block_spec, in_external_macro, in_external_macro_spec, snippet, snippet_or, SourceMap,
};
use crate::span::Span;
use crate::sugg::{sugg_of, unop_spec, Sugg};
use crate::sweep::{events_of, find_overlap, lemma_sort_keeps, overlapping_pair, sorted_events};
use crate::text::{joined, path_to_string, text_eq, texts};
use crate::tree::{children_of, Slot, Tree};
use crate::ty::{match_type, match_type_spec, Ty};

verus! {

/// A range of values with the span of the pattern that holds it: the
/// bounds are `node.0` and `node.1`, both inclusive.
#[derive(Debug, Eq, PartialEq)]
pub struct SpannedRange<T> {
    pub span: Span,
    pub node: (T, T),
}

/// The bounds of the given ranges.
pub open spec fn bounds_of(ranges: Seq<SpannedRange<i128>>) -> Seq<(i128, i128)> {
    ranges.map_values(|r: SpannedRange<i128>| r.node)
}

/// Finds two ranges that overlap: the pair that the sweep over the sorted
/// boundaries meets first. Ranges that only share a boundary overlap.
pub fn overlapping<'a>(ranges: &'a [SpannedRange<i128>]) -> (r: Option<
    (&'a SpannedRange<i128>, &'a SpannedRange<i128>),
>)
    ensures
        match overlapping_pair(bounds_of(ranges@)) {
            Some((i, j)) => {
                &&& 0 <= i < ranges@.len()
                &&& 0 <= j < ranges@.len()
                &&& r.is_some()
                &&& *r.unwrap().0 == ranges@[i]
                &&& *r.unwrap().1 == ranges@[j]
            },
            None => r.is_none(),
        },
{
    let n = ranges.len();
    let mut bounds: Vec<(i128, i128)> = Vec::new();
    let mut i: usize = 0;
    while i < n
        invariant
            i <= n == ranges@.len(),
            bounds@ == bounds_of(ranges@).take(i as int),
        decreases n - i,
    {
        bounds.push(ranges[i].node);
        assert(bounds@ =~= bounds_of(ranges@).take(i + 1));
        i += 1;
    }
    assert(bounds@ =~= bounds_of(ranges@));
    let sorted = sorted_events(&bounds);
    proof {
        lemma_sort_keeps(events_of(bounds@), n as int);
    }
    match find_overlap(&sorted, &bounds) {
        Some(k) => {
            let a = sorted[k].range;
            let b = sorted[k + 1].range;
            Some((&ranges[a], &ranges[b]))
        },
        None => None,
    }
}

/// Whether the expression at `at` is `()` or `{}`.
pub open spec fn is_unit(s: Seq<Slot>, at: int) -> bool {
    match expr_kind_of(s, at) {
        Some(ExprKind::Tup) => children_of(s, at).len() == 0,
        Some(ExprKind::Block) => match only_child(s, at) {
            Some(b) => s[b].node.kind is Block && children_of(s, b).len() == 0,
            None => false,
        },
        _ => false,
    }
}

fn is_unit_expr(tree: &Tree, at: usize) -> (r: bool)
    requires
        at < tree@.len(),
    ensures
        r == is_unit(tree@, at as int),
{
    match expr_kind(tree, at) {
        Some(ExprKind::Tup) => tree.children(at).len() == 0,
        Some(ExprKind::Block) => {
            let inner = tree.children(at);
            if inner.len() != 1 {
                return false;
            }
            match &tree.node(inner[0]).kind {
                NodeKind::Block => tree.children(inner[0]).len() == 0,
                _ => false,
            }
        },
        _ => false,
    }
}

/// The scrutinee of the `match` at `expr`.
pub open spec fn scrutinee_of(s: Seq<Slot>, expr: int) -> int {
    children_of(s, expr)[0]
}

/// The arms of the `match` at `expr`, by position.
pub open spec fn arms_of(s: Seq<Slot>, expr: int) -> Seq<int> {
    children_of(s, expr).skip(1)
}

/// The source of the `match` at `expr`, if the node there is a `match`
/// with a scrutinee.
pub open spec fn match_source(s: Seq<Slot>, expr: int) -> Option<MatchSource> {
    match expr_kind_of(s, expr) {
        Some(ExprKind::Match(source)) => if children_of(s, expr).len() >= 1 {
            Some(source)
        } else {
            None
        },
        _ => None,
    }
}

pub const MSG_SINGLE_MATCH: &'static str =
    "you seem to be trying to use match for destructuring a single pattern. Consider using `if let`";

pub const HELP_TRY_THIS: &'static str = "try this";

/// The shape that the single-match detectors look at: a `match` of two
/// arms, each with one pattern and no guard, whose second arm has a unit
/// body or a block as its body.
#[derive(Clone, Copy, Debug, PartialEq, Eq, Structural)]
pub struct SingleMatch {
    pub ex: usize,
    pub pat: usize,
    pub body: usize,
    pub other_pat: usize,
    /// The body of the second arm, unless it is a unit.
    pub els: Option<usize>,
}

/// The single-match shape of the `match` at `expr`, if it has that shape.
pub open spec fn single_match_of(s: Seq<Slot>, expr: int) -> Option<SingleMatch> {
    let arms = arms_of(s, expr);
    if match_source(s, expr).is_some() && arms.len() == 2 {
        match (plain_arm(s, arms[0]), plain_arm(s, arms[1])) {
            (Some((pat, body)), Some((other_pat, other_body))) => {
                let m = SingleMatch {
                    ex: scrutinee_of(s, expr) as usize,
                    pat: pat as usize,
                    body: body as usize,
                    other_pat: other_pat as usize,
                    els: None,
                };
                if is_unit(s, other_body) {
                    Some(m)
                } else if expr_kind_of(s, other_body) == Some(ExprKind::Block) {
                    Some(SingleMatch { els: Some(other_body as usize), ..m })
                } else {
                    None
                }
            },
            _ => None,
        }
    } else {
        None
    }
}

/// The finding that suggests `if let` in place of the match `m` at
/// `expr`.
pub open spec fn single_match_diag(src: Seq<char>, s: Seq<Slot>, expr: int, m: SingleMatch) -> DiagnosticView {
    with_child(
        plain(
            if m.els.is_some() {
                Lint::SingleMatchElse
            } else {
                Lint::SingleMatch
            },
            span_of(s, expr),
            MSG_SINGLE_MATCH@,
        ),
        suggestion_of(
            span_of(s, expr),
            HELP_TRY_THIS@,
            "if let "@ + snippet_or(src, span_of(s, m.pat as int), ".."@) + " = "@ + snippet_or(
                src,
                span_of(s, m.ex as int),
                ".."@,
            ) + " "@ + expr_block_spec(src, s, m.body as int, None, ".."@) + (match m.els {
                Some(els) => " else "@ + expr_block_spec(src, s, els as int, None, ".."@),
                None => Seq::empty(),
            }),
        ),
    )
}

impl SingleMatch {
    /// Whether the positions are positions of a tree of `n` nodes.
    pub open spec fn within(self, n: nat) -> bool {
        &&& self.ex < n
        &&& self.pat < n
        &&& self.body < n
        &&& self.other_pat < n
        &&& self.els.is_some() ==> self.els.unwrap() < n
    }
}

fn single_match_lint(source: &SourceMap, tree: &Tree, expr: usize, m: SingleMatch) -> (d: Diagnostic)
    requires
        expr < tree@.len(),
        m.within(tree@.len()),
    ensures
        d@ == single_match_diag(source.src@, tree@, expr as int, m),
{
    let lint = if m.els.is_some() {
        Lint::SingleMatchElse
    } else {
        Lint::SingleMatch
    };
    let mut sugg = String::from_str("if let ");
    sugg.append(snippet(source, tree.node(m.pat).span, "..").as_str());
    sugg.append(" = ");
    sugg.append(snippet(source, tree.node(m.ex).span, "..").as_str());
    sugg.append(" ");
    sugg.append(expr_block(source, tree, m.body, None, "..").as_str());
    match m.els {
        Some(els) => {
            let mut els_str = String::from_str(" else ");
            els_str.append(expr_block(source, tree, els, None, "..").as_str());
            sugg.append(els_str.as_str());
        },
        None => {
            assert(sugg@ + Seq::<char>::empty() =~= sugg@);
        },
    }
    span_lint_and_then(
        lint,
        tree.node(expr).span,
        String::from_str(MSG_SINGLE_MATCH),
        span_suggestion(tree.node(expr).span, String::from_str(HELP_TRY_THIS), sugg),
    )
}

/// Whether every pattern below the pattern at `pat` is a wildcard.
pub open spec fn only_wild_inside(s: Seq<Slot>, pat: int) -> bool {
    forall|k: int|
        0 <= k < children_of(s, pat).len() ==> pat_kind_of(s, #[trigger] children_of(s, pat)[k]) == Some(
            PatKind::Wild,
        )
}

/// The path that the pattern at `pat` names, as written, if the pattern is
/// a constructor applied to wildcards only, a plain immutable binding, or
/// a path.
pub open spec fn constructor_path(s: Seq<Slot>, pat: int) -> Option<Seq<char>> {
    match pat_kind_of(s, pat) {
        Some(PatKind::TupleStruct { path }) => if only_wild_inside(s, pat) {
            Some(joined(texts(path@)))
        } else {
            None
        },
        Some(
            PatKind::Binding { mode: BindingMode::ByValue(Mutability::Immutable), name, has_sub: false },
        ) => Some(name@),
        Some(PatKind::Path { qself: false, path }) => Some(joined(texts(path@))),
        _ => None,
    }
}

/// Whether `path` names a variant of an enum of type `ty` that is known to
/// have two variants only: `Cow`, `Option` or `Result`.
pub open spec fn is_other_variant(ty: Ty, path: Seq<char>) -> bool {
    ||| match_type_spec(ty, paths::COW@) && (path == "Borrowed"@ || path == "Cow::Borrowed"@ || path
        == "Cow::Owned"@ || path == "Owned"@)
    ||| match_type_spec(ty, paths::OPTION@) && path == "None"@
    ||| match_type_spec(ty, paths::RESULT@) && (path == "Err"@ || path == "Ok"@)
}

/// What the detector reports for a match of the single-match shape whose
/// second arm is a wildcard.
pub open spec fn single_pattern_findings(src: Seq<char>, s: Seq<Slot>, expr: int, m: SingleMatch) -> Seq<
    DiagnosticView,
> {
    if pat_kind_of(s, m.other_pat as int) == Some(PatKind::Wild) {
        seq![single_match_diag(src, s, expr, m)]
    } else {
        Seq::empty()
    }
}

/// What the detector reports for a match of the single-match shape on a
/// scrutinee of type `ty` whose second arm names the other variant of a
/// two-variant enum.
pub open spec fn opt_like_findings(src: Seq<char>, s: Seq<Slot>, expr: int, m: SingleMatch, ty: Ty) -> Seq<
    DiagnosticView,
> {
    match constructor_path(s, m.other_pat as int) {
        Some(path) => if is_other_variant(ty, path) {
            seq![single_match_diag(src, s, expr, m)]
        } else {
            Seq::empty()
        },
        None => Seq::empty(),
    }
}

/// What the single-match detectors report for the `match` at `expr`:
/// for a match of the single-match shape, whatever the type of its
/// scrutinee, the finding for a wildcard as second arm and the finding for
/// the other variant of a two-variant enum as second arm.
pub open spec fn single_match_findings(cx: LateContext, s: Seq<Slot>, expr: int) -> Seq<DiagnosticView> {
    match single_match_of(s, expr) {
        Some(m) => match ty_of(s, m.ex as int) {
            Some(ty) => single_pattern_findings(cx.source.src@, s, expr, m) + opt_like_findings(
                cx.source.src@,
                s,
                expr,
                m,
                ty,
            ),
            None => Seq::empty(),
        },
        None => Seq::empty(),
    }
}

fn constructor_path_at(tree: &Tree, pat: usize) -> (r: Option<String>)
    requires
        pat < tree@.len(),
    ensures
        match r {
            Some(p) => constructor_path(tree@, pat as int) == Some(p@),
            None => constructor_path(tree@, pat as int).is_none(),
        },
{
    match pat_kind(tree, pat) {
        Some(PatKind::TupleStruct { path }) => {
            // contains any non wildcard patterns? e.g. Err(err)
            let inner = tree.children(pat);
            let n = inner.len();
            let mut k: usize = 0;
            while k < n
                invariant
                    k <= n == inner.len(),
                    pat_kind_of(tree@, pat as int) == Some(PatKind::TupleStruct { path: *path }),
                    forall|i: int| 0 <= i < n ==> #[trigger] inner[i] < tree@.len(),
                    forall|i: int| 0 <= i < n ==> #[trigger] inner[i] == children_of(tree@, pat as int)[i],
                    n == children_of(tree@, pat as int).len(),
                    forall|i: int|
                        0 <= i < k ==> pat_kind_of(tree@, #[trigger] children_of(tree@, pat as int)[i])
                            == Some(PatKind::Wild),
                decreases n - k,
            {
                let wild = match pat_kind(tree, inner[k]) {
                    Some(PatKind::Wild) => true,
                    _ => false,
                };
                if !wild {
                    assert(pat_kind_of(tree@, children_of(tree@, pat as int)[k as int]) != Some(PatKind::Wild));
                    return None;
                }
                k += 1;
            }
            Some(path_to_string(path))
        },
        Some(PatKind::Binding { mode: BindingMode::ByValue(Mutability::Immutable), name, has_sub }) => {
            if *has_sub {
                None
            } else {
                Some(name.clone())
            }
        },
        Some(PatKind::Path { qself, path }) => {
            if *qself {
                None
            } else {
                Some(path_to_string(path))
            }
        },
        _ => None,
    }
}

fn check_other_variant(ty: &Ty, path: &str) -> (r: bool)
    ensures
        r == is_other_variant(*ty, path@),
{
    // list of candidate Enums we know will never get any more members
    (match_type(ty, paths::COW) && (text_eq(path, "Borrowed") || text_eq(path, "Cow::Borrowed") || text_eq(
        path,
        "Cow::Owned",
    ) || text_eq(path, "Owned"))) || (match_type(ty, paths::OPTION) && text_eq(path, "None")) || (match_type(
        ty,
        paths::RESULT,
    ) && (text_eq(path, "Err") || text_eq(path, "Ok")))
}

/// Checks for a `match` whose second arm is `_`.
pub fn check_single_match_single_pattern(
    source: &SourceMap,
    tree: &Tree,
    expr: usize,
    m: SingleMatch,
    out: &mut Vec<Diagnostic>,
)
    requires
        expr < tree@.len(),
        m.within(tree@.len()),
    ensures
        views(final(out)@) == views(old(out)@) + single_pattern_findings(source.src@, tree@, expr as int, m),
{
    assert(views(out@) + Seq::<DiagnosticView>::empty() =~= views(out@));
    let is_wild = match pat_kind(tree, m.other_pat) {
        Some(PatKind::Wild) => true,
        _ => false,
    };
    if is_wild {
        emit(out, single_match_lint(source, tree, expr, m));
    }
}

/// Checks for a `match` on a `Cow`, an `Option` or a `Result` whose
/// second arm names the variant that the first arm leaves.
pub fn check_single_match_opt_like(
    source: &SourceMap,
    tree: &Tree,
    expr: usize,
    m: SingleMatch,
    ty: &Ty,
    out: &mut Vec<Diagnostic>,
)
    requires
        expr < tree@.len(),
        m.within(tree@.len()),
    ensures
        views(final(out)@) == views(old(out)@) + opt_like_findings(source.src@, tree@, expr as int, m, *ty),
{
    assert(views(out@) + Seq::<DiagnosticView>::empty() =~= views(out@));
    let path = match constructor_path_at(tree, m.other_pat) {
        Some(path) => path,
        None => {
            return ;
        },
    };
    if check_other_variant(ty, path.as_str()) {
        emit(out, single_match_lint(source, tree, expr, m));
    }
}

/// Reads the single-match shape of the `match` at `expr`.
fn single_match_at(tree: &Tree, expr: usize) -> (r: Option<SingleMatch>)
    requires
        expr < tree@.len(),
    ensures
        r == single_match_of(tree@, expr as int),
        r.is_some() ==> r.unwrap().within(tree@.len()),
{
    let is_match = match expr_kind(tree, expr) {
        Some(ExprKind::Match(_)) => true,
        _ => false,
    };
    if !is_match {
        return None;
    }
    let parts = tree.children(expr);
    if parts.len() != 3 {
        assert(arms_of(tree@, expr as int).len() != 2 || children_of(tree@, expr as int).len() < 1);
        return None;
    }
    assert(arms_of(tree@, expr as int) =~= seq![parts[1] as int, parts[2] as int]);
    let ex = parts[0];
    let (pat, body, other_pat, other_body) = match (plain_arm_at(tree, parts[1]), plain_arm_at(tree, parts[2])) {
        (Some((pat, body)), Some((other_pat, other_body))) => (pat, body, other_pat, other_body),
        _ => {
            return None;
        },
    };
    if is_unit_expr(tree, other_body) {
        Some(SingleMatch { ex, pat, body, other_pat, els: None })
    } else {
        let is_block = match expr_kind(tree, other_body) {
            Some(ExprKind::Block) => true,
            _ => false,
        };
        if is_block {
            // matches with blocks that contain statements are prettier as `if let + else`
            Some(SingleMatch { ex, pat, body, other_pat, els: Some(other_body) })
        } else {
            // allow match arms with just expressions
            None
        }
    }
}

/// Checks for a `match` with a single arm that matters, where an `if let`
/// would do.
pub fn check_single_match(cx: &LateContext, tree: &Tree, expr: usize, out: &mut Vec<Diagnostic>)
    requires
        expr < tree@.len(),
    ensures
        views(final(out)@) == views(old(out)@) + single_match_findings(*cx, tree@, expr as int),
{
    let ghost before = views(out@);
    assert(before + Seq::<DiagnosticView>::empty() =~= before);
    let m = match single_match_at(tree, expr) {
        Some(m) => m,
        None => {
            return ;
        },
    };
    let ty = match expr_ty(tree, m.ex) {
        Some(ty) => ty,
        None => {
            return ;
        },
    };
    check_single_match_single_pattern(&cx.source, tree, expr, m, out);
    check_single_match_opt_like(&cx.source, tree, expr, m, ty, out);
    assert((before + single_pattern_findings(cx.source.src@, tree@, expr as int, m)) + opt_like_findings(
        cx.source.src@,
        tree@,
        expr as int,
        m,
        *ty,
    ) =~= before + (single_pattern_findings(cx.source.src@, tree@, expr as int, m) + opt_like_findings(
        cx.source.src@,
        tree@,
        expr as int,
        m,
        *ty,
    )));
}

pub const MSG_MATCH_BOOL: &'static str = "you seem to be trying to match on a boolean expression";

pub const HELP_IF_ELSE: &'static str = "consider using an if/else expression";

/// The boolean that the pattern at `pat` is the literal of.
pub open spec fn bool_pattern(s: Seq<Slot>, pat: int) -> Option<bool> {
    match (pat_kind_of(s, pat), only_child(s, pat)) {
        (Some(PatKind::Lit), Some(e)) => match expr_kind_of(s, e) {
            Some(ExprKind::Lit(Lit::Bool(b))) => Some(b),
            _ => None,
        },
        _ => None,
    }
}

/// The bodies for `true` and for `false` of the `match` at `expr`, if it
/// has exactly two arms, one with the pattern `true` alone and one with
/// the pattern `false` alone, and neither with a guard.
pub open spec fn bool_branches(s: Seq<Slot>, expr: int) -> Option<(int, int)> {
    let arms = arms_of(s, expr);
    if arms.len() == 2 {
        match (plain_arm(s, arms[0]), plain_arm(s, arms[1])) {
            (Some((first, first_body)), Some((second, second_body))) => match (
                bool_pattern(s, first),
                bool_pattern(s, second),
            ) {
                (Some(true), Some(false)) => Some((first_body, second_body)),
                (Some(false), Some(true)) => Some((second_body, first_body)),
                _ => None,
            },
            _ => None,
        }
    } else {
        None
    }
}

/// The `if` that stands for a match on the boolean at `ex` with the given
/// bodies: with an `else` if both bodies do something, on the negated
/// condition if only the body for `false` does, and none if neither
/// does.
pub open spec fn if_else_text(src: Seq<char>, s: Seq<Slot>, ex: int, true_expr: int, false_expr: int) -> Option<
    Seq<char>,
> {
    let cond = snippet_or(src, span_of(s, ex), "b"@);
    if !is_unit(s, true_expr) && !is_unit(s, false_expr) {
        Some(
            "if "@ + cond + " "@ + expr_block_spec(src, s, true_expr, None, ".."@) + " else "@
                + expr_block_spec(src, s, false_expr, None, ".."@),
        )
    } else if !is_unit(s, true_expr) {
        Some("if "@ + cond + " "@ + expr_block_spec(src, s, true_expr, None, ".."@))
    } else if !is_unit(s, false_expr) {
        Some(
            "if "@ + unop_spec("!"@, sugg_of(src, s, ex, ".."@)).text + " "@ + expr_block_spec(
                src,
                s,
                false_expr,
                None,
                ".."@,
            ),
        )
    } else {
        None
    }
}

/// What the detector for matches on booleans reports for the `match` at
/// `expr`: a finding whenever the scrutinee is a boolean, with the `if`
/// that could replace the match where there is one.
pub open spec fn match_bool_findings(src: Seq<char>, s: Seq<Slot>, expr: int) -> Seq<DiagnosticView> {
    if match_source(s, expr).is_some() && ty_of(s, scrutinee_of(s, expr)) == Some(Ty::Bool) {
        let base = plain(Lint::MatchBool, span_of(s, expr), MSG_MATCH_BOOL@);
        let sugg = match bool_branches(s, expr) {
            Some((true_expr, false_expr)) => if_else_text(src, s, scrutinee_of(s, expr), true_expr, false_expr),
            None => None,
        };
        seq![
            match sugg {
                Some(text) => with_child(base, suggestion_of(span_of(s, expr), HELP_IF_ELSE@, text)),
                None => base,
            },
        ]
    } else {
        Seq::empty()
    }
}

fn bool_pattern_at(tree: &Tree, pat: usize) -> (r: Option<bool>)
    requires
        pat < tree@.len(),
    ensures
        r == bool_pattern(tree@, pat as int),
{
    let is_lit = match pat_kind(tree, pat) {
        Some(PatKind::Lit) => true,
        _ => false,
    };
    if !is_lit {
        return None;
    }
    let inner = tree.children(pat);
    if inner.len() != 1 {
        return None;
    }
    match expr_kind(tree, inner[0]) {
        Some(ExprKind::Lit(Lit::Bool(b))) => Some(*b),
        _ => None,
    }
}

/// Checks for a `match` on a boolean.
pub fn check_match_bool(source: &SourceMap, tree: &Tree, expr: usize, out: &mut Vec<Diagnostic>)
    requires
        expr < tree@.len(),
    ensures
        views(final(out)@) == views(old(out)@) + match_bool_findings(source.src@, tree@, expr as int),
{
    assert(views(out@) + Seq::<DiagnosticView>::empty() =~= views(out@));
    let is_match = match expr_kind(tree, expr) {
        Some(ExprKind::Match(_)) => true,
        _ => false,
    };
    if !is_match {
        return ;
    }
    let parts = tree.children(expr);
    if parts.len() == 0 {
        return ;
    }
    let ex = parts[0];
    // type of expression == bool
    let is_bool = match expr_ty(tree, ex) {
        Some(ty) => ty.is_bool(),
        None => false,
    };
    if !is_bool {
        return ;
    }
    let mut d = span_lint(Lint::MatchBool, tree.node(expr).span, String::from_str(MSG_MATCH_BOOL));
    proof {
        if parts.len() == 3 {
            assert(arms_of(tree@, expr as int) =~= seq![parts[1] as int, parts[2] as int]);
        } else {
            assert(arms_of(tree@, expr as int).len() != 2);
        }
    }
    if parts.len() == 3 {
        let exprs = match (plain_arm_at(tree, parts[1]), plain_arm_at(tree, parts[2])) {
            (Some((first, first_body)), Some((second, second_body))) => {
                match (bool_pattern_at(tree, first), bool_pattern_at(tree, second)) {
                    (Some(true), Some(false)) => Some((first_body, second_body)),
                    (Some(false), Some(true)) => Some((second_body, first_body)),
                    _ => None,
                }
            },
            _ => None,
        };
        if let Some((true_expr, false_expr)) = exprs {
            let true_unit = is_unit_expr(tree, true_expr);
            let false_unit = is_unit_expr(tree, false_expr);
            let sugg = if !true_unit && !false_unit {
                let mut t = String::from_str("if ");
                t.append(snippet(source, tree.node(ex).span, "b").as_str());
                t.append(" ");
                t.append(expr_block(source, tree, true_expr, None, "..").as_str());
                t.append(" else ");
                t.append(expr_block(source, tree, false_expr, None, "..").as_str());
                Some(t)
            } else if !true_unit {
                let mut t = String::from_str("if ");
                t.append(snippet(source, tree.node(ex).span, "b").as_str());
                t.append(" ");
                t.append(expr_block(source, tree, true_expr, None, "..").as_str());
                Some(t)
            } else if !false_unit {
                let test = Sugg::hir(source, tree, ex, "..").not();
                let mut t = String::from_str("if ");
                t.append(test.text.as_str());
                t.append(" ");
                t.append(expr_block(source, tree, false_expr, None, "..").as_str());
                Some(t)
            } else {
                None
            };
            if let Some(sugg) = sugg {
                d = crate::diagnostics::attach(
                    d,
                    span_suggestion(tree.node(expr).span, String::from_str(HELP_IF_ELSE), sugg),
                );
            }
        }
    }
    emit(out, d);
}

/// The range of integers that the pattern at `pat` matches, if the
/// pattern is a range or a literal whose bounds fold to integers.
pub open spec fn pat_range(s: Seq<Slot>, pat: int) -> Option<SpannedRange<i128>> {
    let kids = children_of(s, pat);
    match pat_kind_of(s, pat) {
        Some(PatKind::Range) => if kids.len() == 2 {
            match (integral_of(s, kids[0]), integral_of(s, kids[1])) {
                (Some(lo), Some(hi)) => Some(SpannedRange { span: span_of(s, pat), node: (lo, hi) }),
                _ => None,
            }
        } else {
            None
        },
        Some(PatKind::Lit) => if kids.len() == 1 {
            match integral_of(s, kids[0]) {
                Some(v) => Some(SpannedRange { span: span_of(s, pat), node: (v, v) }),
                None => None,
            }
        } else {
            None
        },
        _ => None,
    }
}

/// The ranges of the patterns `pats[k..]`, in order.
pub open spec fn pats_ranges(s: Seq<Slot>, pats: Seq<int>, k: int) -> Seq<SpannedRange<i128>>
    decreases pats.len() - k,
{
    if k < 0 || k >= pats.len() {
        Seq::empty()
    } else {
        (match pat_range(s, pats[k]) {
            Some(r) => seq![r],
            None => Seq::empty(),
        }) + pats_ranges(s, pats, k + 1)
    }
}

/// The ranges of the arms `arms[k..]` that have no guard, in order.
pub open spec fn all_ranges_spec(s: Seq<Slot>, arms: Seq<int>, k: int) -> Seq<SpannedRange<i128>>
    decreases arms.len() - k,
{
    if k < 0 || k >= arms.len() {
        Seq::empty()
    } else {
        (match arm_of(s, arms[k]) {
            Some(a) => if a.guard.is_none() {
                pats_ranges(s, a.pats, 0)
            } else {
                Seq::empty()
            },
            None => Seq::empty(),
        }) + all_ranges_spec(s, arms, k + 1)
    }
}

fn pat_range_at(tree: &Tree, pat: usize) -> (r: Option<SpannedRange<i128>>)
    requires
        pat < tree@.len(),
    ensures
        r == pat_range(tree@, pat as int),
{
    match pat_kind(tree, pat) {
        Some(PatKind::Range) => {
            let kids = tree.children(pat);
            if kids.len() != 2 {
                return None;
            }
            match (eval_integral(tree, kids[0]), eval_integral(tree, kids[1])) {
                (Some(lo), Some(hi)) => Some(SpannedRange { span: tree.node(pat).span, node: (lo, hi) }),
                _ => None,
            }
        },
        Some(PatKind::Lit) => {
            let kids = tree.children(pat);
            if kids.len() != 1 {
                return None;
            }
            match eval_integral(tree, kids[0]) {
                Some(v) => Some(SpannedRange { span: tree.node(pat).span, node: (v, v) }),
                None => None,
            }
        },
        _ => None,
    }
}

/// Get all arms that are integer ranges or integer literals.
fn all_ranges(tree: &Tree, arms: &Vec<usize>) -> (ranges: Vec<SpannedRange<i128>>)
    requires
        forall|k: int| 0 <= k < arms.len() ==> #[trigger] arms[k] < tree@.len(),
    ensures
        ranges@ == all_ranges_spec(tree@, arms@.map_values(|a: usize| a as int), 0),
{
    let ghost positions = arms@.map_values(|a: usize| a as int);
    let mut ranges: Vec<SpannedRange<i128>> = Vec::new();
    let n = arms.len();
    let mut k: usize = 0;
    assert(ranges@ + all_ranges_spec(tree@, positions, 0) =~= all_ranges_spec(tree@, positions, 0));
    while k < n
        invariant
            k <= n == arms.len(),
            positions == arms@.map_values(|a: usize| a as int),
            forall|k: int| 0 <= k < arms.len() ==> #[trigger] arms[k] < tree@.len(),
            ranges@ + all_ranges_spec(tree@, positions, k as int) == all_ranges_spec(tree@, positions, 0),
        decreases n - k,
    {
        let ghost before = ranges@;
        let ghost rest = all_ranges_spec(tree@, positions, k + 1);
        assert(positions[k as int] == arms[k as int]);
        let ghost here = match arm_of(tree@, arms[k as int] as int) {
            Some(a) => if a.guard.is_none() {
                pats_ranges(tree@, a.pats, 0)
            } else {
                Seq::empty()
            },
            None => Seq::empty(),
        };
        assert(all_ranges_spec(tree@, positions, k as int) == here + rest);
        match arm(tree, arms[k]) {
            Some(a) => {
                if a.guard.is_none() {
                    let ghost pats = a.parts().pats;
                    let m = a.pats.len();
                    let mut j: usize = 0;
                    assert(before + pats_ranges(tree@, pats, 0) =~= before + here);
                    while j < m
                        invariant
                            j <= m == a.pats.len(),
                            pats == a.parts().pats,
                            a.within(tree@.len()),
                            ranges@ + pats_ranges(tree@, pats, j as int) == before + here,
                        decreases m - j,
                    {
                        let ghost so_far = ranges@;
                        assert(pats[j as int] == a.pats[j as int]);
                        let ghost tail = pats_ranges(tree@, pats, j + 1);
                        match pat_range_at(tree, a.pats[j]) {
                            Some(r) => {
                                ranges.push(r);
                                assert(ranges@ + tail =~= so_far + (seq![r] + tail));
                            },
                            None => {
                                assert(so_far + (Seq::<SpannedRange<i128>>::empty() + tail) =~= so_far + tail);
                            },
                        }
                        j += 1;
                    }
                    assert(ranges@ + Seq::<SpannedRange<i128>>::empty() =~= ranges@);
                } else {
                    assert(before + here =~= before);
                }
            },
            None => {
                assert(before + here =~= before);
            },
        }
        assert(ranges@ + rest =~= before + (here + rest));
        k += 1;
    }
    assert(ranges@ + Seq::<SpannedRange<i128>>::empty() =~= ranges@);
    ranges
}

pub const MSG_RANGES_OVERLAP: &'static str = "some ranges overlap";

pub const NOTE_OVERLAPS: &'static str = "overlaps with this";

/// What the overlap detector reports for the `match` at `expr`: for a
/// match on an integer with at least two arms, the first two ranges that
/// the sweep finds to overlap.
pub open spec fn overlapping_arms_findings(s: Seq<Slot>, expr: int) -> Seq<DiagnosticView> {
    let arms = arms_of(s, expr);
    let integral = match ty_of(s, scrutinee_of(s, expr)) {
        Some(ty) => ty.is_integral_spec(),
        None => false,
    };
    if match_source(s, expr).is_some() && arms.len() >= 2 && integral {
        let ranges = all_ranges_spec(s, arms, 0);
        match overlapping_pair(bounds_of(ranges)) {
            Some((i, j)) => seq![
                with_child(
                    plain(Lint::MatchOverlappingArm, ranges[i].span, MSG_RANGES_OVERLAP@),
                    note_of(
                        if ranges[j].span == ranges[i].span {
                            None
                        } else {
                            Some(ranges[j].span)
                        },
                        NOTE_OVERLAPS@,
                    ),
                ),
            ],
            None => Seq::empty(),
        }
    } else {
        Seq::empty()
    }
}

/// Checks for arms of a `match` on an integer that overlap.
pub fn check_overlapping_arms(tree: &Tree, expr: usize, out: &mut Vec<Diagnostic>)
    requires
        expr < tree@.len(),
    ensures
        views(final(out)@) == views(old(out)@) + overlapping_arms_findings(tree@, expr as int),
{
    assert(views(out@) + Seq::<DiagnosticView>::empty() =~= views(out@));
    let is_match = match expr_kind(tree, expr) {
        Some(ExprKind::Match(_)) => true,
        _ => false,
    };
    if !is_match {
        return ;
    }
    let mut parts = tree.children(expr);
    if parts.len() < 3 {
        assert(arms_of(tree@, expr as int).len() < 2 || children_of(tree@, expr as int).len() < 1);
        return ;
    }
    let integral = match expr_ty(tree, parts[0]) {
        Some(ty) => ty.is_integral(),
        None => false,
    };
    if !integral {
        return ;
    }
    let _ = parts.remove(0);
    let arms = parts;
    assert(arms@.map_values(|a: usize| a as int) =~= arms_of(tree@, expr as int));
    let ranges = all_ranges(tree, &arms);
    if let Some((start, end)) = overlapping(ranges.as_slice()) {
        let d = span_note_and_lint(
            Lint::MatchOverlappingArm,
            start.span,
            String::from_str(MSG_RANGES_OVERLAP),
            end.span,
            String::from_str(NOTE_OVERLAPS),
        );
        emit(out, d);
    }
}

/// Whether the pattern at `pat` is a `&` pattern (`true`) or a wildcard
/// (`false`); none if it is neither.
pub open spec fn ref_or_wild(s: Seq<Slot>, pat: int) -> Option<bool> {
    match pat_kind_of(s, pat) {
        Some(PatKind::Ref) => Some(true),
        Some(PatKind::Wild) => Some(false),
        _ => None,
    }
}

/// Both censuses taken together: none if either is none, and else whether
/// either found a `&` pattern.
pub open spec fn both(a: Option<bool>, b: Option<bool>) -> Option<bool> {
    match (a, b) {
        (Some(x), Some(y)) => Some(x || y),
        _ => None,
    }
}

/// The census of the patterns `pats[k..]`: none if one of them is neither
/// a `&` pattern nor a wildcard, and else whether a `&` pattern is among
/// them.
pub open spec fn pats_census(s: Seq<Slot>, pats: Seq<int>, k: int) -> Option<bool>
    decreases pats.len() - k,
{
    if k < 0 || k >= pats.len() {
        Some(false)
    } else {
        both(ref_or_wild(s, pats[k]), pats_census(s, pats, k + 1))
    }
}

/// The census of the patterns of the arms `arms[k..]`.
pub open spec fn arms_census(s: Seq<Slot>, arms: Seq<int>, k: int) -> Option<bool>
    decreases arms.len() - k,
{
    if k < 0 || k >= arms.len() {
        Some(false)
    } else {
        both(
            match arm_of(s, arms[k]) {
                Some(a) => pats_census(s, a.pats, 0),
                None => None,
            },
            arms_census(s, arms, k + 1),
        )
    }
}

/// Whether every pattern of the arms is a `&` pattern or a wildcard, and
/// at least one is a `&` pattern.
pub open spec fn has_only_ref_pats_spec(s: Seq<Slot>, arms: Seq<int>) -> bool {
    arms_census(s, arms, 0) == Some(true)
}

fn has_only_ref_pats(tree: &Tree, arms: &Vec<usize>) -> (r: bool)
    requires
        forall|k: int| 0 <= k < arms.len() ==> #[trigger] arms[k] < tree@.len(),
    ensures
        r == has_only_ref_pats_spec(tree@, arms@.map_values(|a: usize| a as int)),
{
    let ghost positions = arms@.map_values(|a: usize| a as int);
    let n = arms.len();
    let mut any_ref = false;
    let mut k: usize = 0;
    while k < n
        invariant
            k <= n == arms.len(),
            positions == arms@.map_values(|a: usize| a as int),
            forall|k: int| 0 <= k < arms.len() ==> #[trigger] arms[k] < tree@.len(),
            arms_census(tree@, positions, 0) == both(Some(any_ref), arms_census(tree@, positions, k as int)),
        decreases n - k,
    {
        assert(positions[k as int] == arms[k as int]);
        let a = match arm(tree, arms[k]) {
            Some(a) => a,
            None => {
                return false;
            },
        };
        let ghost pats = a.parts().pats;
        let ghost before = any_ref;
        let m = a.pats.len();
        let mut j: usize = 0;
        while j < m
            invariant
                j <= m == a.pats.len(),
                pats == a.parts().pats,
                positions == arms@.map_values(|a: usize| a as int),
                a.within(tree@.len()),
                both(Some(before), pats_census(tree@, pats, 0)) == both(
                    Some(any_ref),
                    pats_census(tree@, pats, j as int),
                ),
                arms_census(tree@, positions, 0) == both(
                    Some(before),
                    arms_census(tree@, positions, k as int),
                ),
                arms_census(tree@, positions, k as int) == both(
                    pats_census(tree@, pats, 0),
                    arms_census(tree@, positions, k + 1),
                ),
            decreases m - j,
        {
            assert(pats[j as int] == a.pats[j as int]);
            match pat_kind(tree, a.pats[j]) {
                Some(PatKind::Ref) => {
                    // &-patterns
                    any_ref = true;
                },
                Some(PatKind::Wild) => {
                    // an "anything" wildcard is also fine
                },
                _ => {
                    // any other pattern is not fine
                    assert(ref_or_wild(tree@, pats[j as int]).is_none());
                    assert(pats_census(tree@, pats, j as int).is_none());
                    return false;
                },
            }
            j += 1;
        }
        k += 1;
    }
    any_ref
}

/// What the match or the `if let` or the `while let` looks like with
/// `expr` as its scrutinee. A match that stands for a `for` loop or for a
/// `?` has no such form.
pub open spec fn match_template_spec(source: MatchSource, expr: Seq<char>) -> Result<Seq<char>, Defect> {
    match source {
        MatchSource::Normal => Ok("match "@ + expr + " { .. }"@),
        MatchSource::IfLetDesugar { .. } => Ok("if let .. = "@ + expr + " { .. }"@),
        MatchSource::WhileLetDesugar => Ok("while let .. = "@ + expr + " { .. }"@),
        MatchSource::ForLoopDesugar => Err(Defect::ForLoopWithRefPatterns),
        MatchSource::TryDesugar => Err(Defect::TryWithRefPatterns),
    }
}

fn match_template(source: MatchSource, expr: &Sugg) -> (r: Result<String, Defect>)
    ensures
        match r {
            Ok(t) => match_template_spec(source, expr@.text) == Ok::<Seq<char>, Defect>(t@),
            Err(d) => match_template_spec(source, expr@.text) == Err::<Seq<char>, Defect>(d),
        },
{
    let head = match source {
        MatchSource::Normal => "match ",
        MatchSource::IfLetDesugar { .. } => "if let .. = ",
        MatchSource::WhileLetDesugar => "while let .. = ",
        MatchSource::ForLoopDesugar => {
            return Err(Defect::ForLoopWithRefPatterns);
        },
        MatchSource::TryDesugar => {
            return Err(Defect::TryWithRefPatterns);
        },
    };
    let mut t = String::from_str(head);
    t.append(expr.text.as_str());
    t.append(" { .. }");
    Ok(t)
}

pub const MSG_REF_BOTH: &'static str = "you don't need to add `&` to both the expression and the patterns";

pub const MSG_REF_ALL: &'static str = "you don't need to add `&` to all patterns";

pub const HELP_DEREF: &'static str =
    "instead of prefixing all patterns with `&`, you can dereference the expression";

pub const HELP_TRY: &'static str = "try";

/// The expression that the scrutinee at `ex` borrows immutably.
pub open spec fn borrowed(s: Seq<Slot>, ex: int) -> Option<int> {
    match (expr_kind_of(s, ex), only_child(s, ex)) {
        (Some(ExprKind::AddrOf(Mutability::Immutable)), Some(inner)) => Some(inner),
        _ => None,
    }
}

/// The rewritten match for the `match` at `expr`, whose arms all take a
/// reference: without the `&` if the scrutinee has one, and with a
/// dereference if it has none.
pub open spec fn ref_pats_template(src: Seq<char>, s: Seq<Slot>, expr: int, source: MatchSource) -> Result<
    Seq<char>,
    Defect,
> {
    let ex = scrutinee_of(s, expr);
    match borrowed(s, ex) {
        Some(inner) => match_template_spec(source, sugg_of(src, s, inner, ".."@).text),
        None => match_template_spec(source, unop_spec("*"@, sugg_of(src, s, ex, ".."@)).text),
    }
}

/// What the detector for `&` patterns reports for the `match` at `expr`.
pub open spec fn ref_pats_findings(src: Seq<char>, s: Seq<Slot>, expr: int) -> Seq<DiagnosticView> {
    match match_source(s, expr) {
        Some(source) => if has_only_ref_pats_spec(s, arms_of(s, expr)) {
            match ref_pats_template(src, s, expr, source) {
                Ok(template) => seq![
                    if borrowed(s, scrutinee_of(s, expr)).is_some() {
                        with_child(
                            plain(Lint::MatchRefPats, span_of(s, expr), MSG_REF_BOTH@),
                            suggestion_of(span_of(s, expr), HELP_TRY@, template),
                        )
                    } else {
                        with_child(
                            plain(Lint::MatchRefPats, span_of(s, expr), MSG_REF_ALL@),
                            suggestion_of(span_of(s, expr), HELP_DEREF@, template),
                        )
                    },
                ],
                Err(_) => Seq::empty(),
            }
        } else {
            Seq::empty()
        },
        None => Seq::empty(),
    }
}

/// The defect that the detector for `&` patterns meets at `expr`.
pub open spec fn ref_pats_defect(src: Seq<char>, s: Seq<Slot>, expr: int) -> Option<Defect> {
    match match_source(s, expr) {
        Some(source) => if has_only_ref_pats_spec(s, arms_of(s, expr)) {
            match ref_pats_template(src, s, expr, source) {
                Ok(_) => None,
                Err(d) => Some(d),
            }
        } else {
            None
        },
        None => None,
    }
}

/// The result of a detector that met the defect `d`, or none.
pub open spec fn outcome(d: Option<Defect>) -> Result<(), Defect> {
    match d {
        Some(d) => Err(d),
        None => Ok(()),
    }
}

/// Checks for a `match` whose patterns all begin with `&`.
pub fn check_match_ref_pats(source: &SourceMap, tree: &Tree, expr: usize, out: &mut Vec<Diagnostic>) -> (r:
    Result<(), Defect>)
    requires
        expr < tree@.len(),
    ensures
        views(final(out)@) == views(old(out)@) + ref_pats_findings(source.src@, tree@, expr as int),
        r == outcome(ref_pats_defect(source.src@, tree@, expr as int)),
{
    assert(views(out@) + Seq::<DiagnosticView>::empty() =~= views(out@));
    let match_source = match expr_kind(tree, expr) {
        Some(ExprKind::Match(source)) => *source,
        _ => {
            return Ok(());
        },
    };
    let mut parts = tree.children(expr);
    if parts.len() == 0 {
        return Ok(());
    }
    let ex = parts[0];
    let _ = parts.remove(0);
    let arms = parts;
    assert(arms@.map_values(|a: usize| a as int) =~= arms_of(tree@, expr as int));
    if !has_only_ref_pats(tree, &arms) {
        return Ok(());
    }
    let inner = match expr_kind(tree, ex) {
        Some(ExprKind::AddrOf(Mutability::Immutable)) => {
            let inner = tree.children(ex);
            if inner.len() == 1 {
                Some(inner[0])
            } else {
                None
            }
        },
        _ => None,
    };
    match inner {
        Some(inner) => {
            let inner = Sugg::hir(source, tree, inner, "..");
            let template = match match_template(match_source, &inner) {
                Ok(t) => t,
                Err(d) => {
                    return Err(d);
                },
            };
            let d = span_lint_and_then(
                Lint::MatchRefPats,
                tree.node(expr).span,
                String::from_str(MSG_REF_BOTH),
                span_suggestion(tree.node(expr).span, String::from_str(HELP_TRY), template),
            );
            emit(out, d);
        },
        None => {
            let ex = Sugg::hir(source, tree, ex, "..").deref();
            let template = match match_template(match_source, &ex) {
                Ok(t) => t,
                Err(d) => {
                    return Err(d);
                },
            };
            let d = span_lint_and_then(
                Lint::MatchRefPats,
                tree.node(expr).span,
                String::from_str(MSG_REF_ALL),
                span_suggestion(tree.node(expr).span, String::from_str(HELP_DEREF), template),
            );
            emit(out, d);
        },
    }
    Ok(())
}

/// What the match detectors report for the expression at `expr`: nothing
/// for code from a macro that is defined elsewhere; for a `match` as
/// written the findings of the single-match, boolean and overlap
/// detectors; and for every `match` those of the detector for `&`
/// patterns.
pub open spec fn expr_findings(cx: LateContext, s: Seq<Slot>, expr: int) -> Seq<DiagnosticView> {
    if in_external_macro_spec(cx.source.src@, cx.source.expansions@, span_of(s, expr)) {
        Seq::empty()
    } else {
        (if match_source(s, expr) == Some(MatchSource::Normal) {
            single_match_findings(cx, s, expr) + match_bool_findings(cx.source.src@, s, expr)
                + overlapping_arms_findings(s, expr)
        } else {
            Seq::empty()
        }) + ref_pats_findings(cx.source.src@, s, expr)
    }
}

/// The defect that the match detectors meet at `expr`.
pub open spec fn expr_defect(cx: LateContext, s: Seq<Slot>, expr: int) -> Option<Defect> {
    if in_external_macro_spec(cx.source.src@, cx.source.expansions@, span_of(s, expr)) {
        None
    } else {
        ref_pats_defect(cx.source.src@, s, expr)
    }
}

/// The detectors on `match` expressions.
#[derive(Copy, Clone, Debug)]
pub struct MatchPass;

impl MatchPass {
    /// The lints of this pass.
    pub fn get_lints(&self) -> (lints: Vec<Lint>)
        ensures
            lints@ == seq![
                Lint::SingleMatch,
                Lint::MatchRefPats,
                Lint::MatchBool,
                Lint::SingleMatchElse,
                Lint::MatchOverlappingArm,
            ],
    {
        vec![
            Lint::SingleMatch,
            Lint::MatchRefPats,
            Lint::MatchBool,
            Lint::SingleMatchElse,
            Lint::MatchOverlappingArm,
        ]
    }

    /// Runs the match detectors on the expression at `expr`.
    pub fn check_expr(&mut self, cx: &LateContext, tree: &Tree, expr: usize, out: &mut Vec<Diagnostic>) -> (r:
        Result<(), Defect>)
        requires
            expr < tree@.len(),
        ensures
            views(final(out)@) == views(old(out)@) + expr_findings(*cx, tree@, expr as int),
            r == outcome(expr_defect(*cx, tree@, expr as int)),
    {
        let ghost before = views(out@);
        assert(before + Seq::<DiagnosticView>::empty() =~= before);
        if in_external_macro(&cx.source, tree.node(expr).span) {
            return Ok(());
        }
        let ghost a = single_match_findings(*cx, tree@, expr as int);
        let ghost b = match_bool_findings(cx.source.src@, tree@, expr as int);
        let ghost c = overlapping_arms_findings(tree@, expr as int);
        let ghost d = ref_pats_findings(cx.source.src@, tree@, expr as int);
        let normal = match expr_kind(tree, expr) {
            Some(ExprKind::Match(MatchSource::Normal)) => tree.children(expr).len() >= 1,
            _ => false,
        };
        if normal {
            check_single_match(cx, tree, expr, out);
            check_match_bool(&cx.source, tree, expr, out);
            check_overlapping_arms(tree, expr, out);
            assert(((before + a) + b) + c =~= before + ((a + b) + c));
        }
        let r = check_match_ref_pats(&cx.source, tree, expr, out);
        if normal {
            assert((before + ((a + b) + c)) + d =~= before + (((a + b) + c) + d));
        } else {
            assert(before + (Seq::<DiagnosticView>::empty() + d) =~= before + d);
        }
        r
    }
}

} // verus!
