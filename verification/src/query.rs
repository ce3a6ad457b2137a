//! Questions about single nodes and their surroundings that several
//! detectors ask.

use vstd::prelude::*;
use crate::node::{ConstVal, Def, ExprKind, ItemKind, Lit, NodeKind, PatKind};
use crate::span::Span;
use crate::tree::{children_of, parent_of, Slot, Tree};
use crate::ty::Ty;

verus! {

/// The kind of the expression at `at`, if the node there is an expression.
pub open spec fn expr_kind_of(s: Seq<Slot>, at: int) -> Option<ExprKind> {
    if 0 <= at < s.len() {
        match s[at].node.kind {
            NodeKind::Expr { kind, .. } => Some(kind),
            _ => None,
        }
    } else {
        None
    }
}

/// The kind of the pattern at `at`, if the node there is a pattern.
pub open spec fn pat_kind_of(s: Seq<Slot>, at: int) -> Option<PatKind> {
    if 0 <= at < s.len() {
        match s[at].node.kind {
            NodeKind::Pat(kind) => Some(kind),
            _ => None,
        }
    } else {
        None
    }
}

/// The type of the expression at `at`.
pub open spec fn ty_of(s: Seq<Slot>, at: int) -> Option<Ty> {
    if 0 <= at < s.len() {
        match s[at].node.kind {
            NodeKind::Expr { ty, .. } => Some(ty),
            _ => None,
        }
    } else {
        None
    }
}

/// The integer that the expression at `at` folds to, if it folds to one.
pub open spec fn integral_of(s: Seq<Slot>, at: int) -> Option<i128> {
    if 0 <= at < s.len() {
        match s[at].node.kind {
            NodeKind::Expr { constant: Some(ConstVal::Integral(v)), .. } => Some(v),
            _ => None,
        }
    } else {
        None
    }
}

/// Whether the expression at `at` folds to a constant at all.
pub open spec fn has_constant(s: Seq<Slot>, at: int) -> bool {
    0 <= at < s.len() && match s[at].node.kind {
        NodeKind::Expr { constant: Some(_), .. } => true,
        _ => false,
    }
}

pub open spec fn span_of(s: Seq<Slot>, at: int) -> Span {
    s[at].node.span
}

/// The name of the expression at `at` if it is a path of one segment
/// without a qualified self type.
pub open spec fn single_name_of(s: Seq<Slot>, at: int) -> Option<Seq<char>> {
    match expr_kind_of(s, at) {
        Some(ExprKind::Path { qself, segments, .. }) => if !qself && segments.len() == 1 {
            Some(segments[0]@)
        } else {
            None
        },
        _ => None,
    }
}

/// What the path expression at `at` resolves to.
pub open spec fn res_of(s: Seq<Slot>, at: int) -> Option<Def> {
    match expr_kind_of(s, at) {
        Some(ExprKind::Path { res, .. }) => Some(res),
        _ => None,
    }
}

/// The local variable that the expression at `at` names, by the identity
/// of its declaration.
pub open spec fn var_def_id_spec(s: Seq<Slot>, at: int) -> Option<u32> {
    match res_of(s, at) {
        Some(Def::Local(id)) => Some(id),
        _ => None,
    }
}

pub open spec fn is_integer_literal_spec(s: Seq<Slot>, at: int, value: u64) -> bool {
    match expr_kind_of(s, at) {
        Some(ExprKind::Lit(Lit::Int(v))) => v == value,
        _ => false,
    }
}

pub open spec fn is_loop_spec(s: Seq<Slot>, at: int) -> bool {
    match expr_kind_of(s, at) {
        Some(ExprKind::Loop) | Some(ExprKind::While) | Some(ExprKind::ForLoop) => true,
        _ => false,
    }
}

pub open spec fn is_conditional_spec(s: Seq<Slot>, at: int) -> bool {
    match expr_kind_of(s, at) {
        Some(ExprKind::If) | Some(ExprKind::Match(_)) => true,
        _ => false,
    }
}

pub open spec fn is_arm(s: Seq<Slot>, at: int) -> bool {
    0 <= at < s.len() && s[at].node.kind is Arm
}

/// The expression directly above the node at `at`, where a match arm
/// counts as part of its match.
pub open spec fn parent_expr_of(s: Seq<Slot>, at: int) -> Option<int> {
    match parent_of(s, at) {
        Some(p) => {
            let above = if is_arm(s, p) {
                parent_of(s, p)
            } else {
                Some(p)
            };
            match above {
                Some(q) => if expr_kind_of(s, q).is_some() {
                    Some(q)
                } else {
                    None
                },
                None => None,
            }
        },
        None => None,
    }
}

/// Whether the node is a block or an item: the nodes that open a scope.
pub open spec fn opens_scope(s: Seq<Slot>, at: int) -> bool {
    0 <= at < s.len() && (s[at].node.kind is Block || s[at].node.kind is Item)
}

/// The nearest node above `at` that opens a scope, searching the
/// ancestors from `at` upwards with at most `fuel` steps.
pub open spec fn enclosing_scope_of(s: Seq<Slot>, at: int, fuel: nat) -> Option<int>
    decreases fuel,
{
    if fuel == 0 {
        None
    } else {
        match parent_of(s, at) {
            Some(p) => if opens_scope(s, p) {
                Some(p)
            } else {
                enclosing_scope_of(s, p, (fuel - 1) as nat)
            },
            None => None,
        }
    }
}

/// The block that encloses the node at `at`: the nearest block above it,
/// or the body of the function above it.
pub open spec fn enclosing_block_of(s: Seq<Slot>, at: int) -> Option<int> {
    match enclosing_scope_of(s, at, s.len()) {
        Some(p) => match s[p].node.kind {
            NodeKind::Block => Some(p),
            NodeKind::Item { item: ItemKind::Fn, .. } => {
                let kids = children_of(s, p);
                if kids.len() == 1 && s[kids[0]].node.kind is Block {
                    Some(kids[0])
                } else {
                    None
                }
            },
            _ => None,
        },
        None => None,
    }
}

/// The kind of the expression at `at`, if the node there is an expression.
pub fn expr_kind(tree: &Tree, at: usize) -> (r: Option<&ExprKind>)
    requires
        at < tree@.len(),
    ensures
        match r {
            Some(k) => expr_kind_of(tree@, at as int) == Some(*k),
            None => expr_kind_of(tree@, at as int).is_none(),
        },
{
    match &tree.node(at).kind {
        NodeKind::Expr { kind, .. } => Some(kind),
        _ => None,
    }
}

/// The kind of the pattern at `at`, if the node there is a pattern.
pub fn pat_kind(tree: &Tree, at: usize) -> (r: Option<&PatKind>)
    requires
        at < tree@.len(),
    ensures
        match r {
            Some(k) => pat_kind_of(tree@, at as int) == Some(*k),
            None => pat_kind_of(tree@, at as int).is_none(),
        },
{
    match &tree.node(at).kind {
        NodeKind::Pat(kind) => Some(kind),
        _ => None,
    }
}

/// The type of the expression at `at`.
pub fn expr_ty(tree: &Tree, at: usize) -> (r: Option<&Ty>)
    requires
        at < tree@.len(),
    ensures
        match r {
            Some(t) => ty_of(tree@, at as int) == Some(*t),
            None => ty_of(tree@, at as int).is_none(),
        },
{
    match &tree.node(at).kind {
        NodeKind::Expr { ty, .. } => Some(ty),
        _ => None,
    }
}

/// The integer that the expression at `at` folds to, if it folds to one.
pub fn eval_integral(tree: &Tree, at: usize) -> (r: Option<i128>)
    requires
        at < tree@.len(),
    ensures
        r == integral_of(tree@, at as int),
{
    match &tree.node(at).kind {
        NodeKind::Expr { constant: Some(ConstVal::Integral(v)), .. } => Some(*v),
        _ => None,
    }
}

/// Whether the expression at `at` folds to a constant.
pub fn eval_is_const(tree: &Tree, at: usize) -> (r: bool)
    requires
        at < tree@.len(),
    ensures
        r == has_constant(tree@, at as int),
{
    match &tree.node(at).kind {
        NodeKind::Expr { constant: Some(_), .. } => true,
        _ => false,
    }
}

/// The name of the expression at `at` if it is a path of one segment.
pub fn single_name(tree: &Tree, at: usize) -> (r: Option<&String>)
    requires
        at < tree@.len(),
    ensures
        match r {
            Some(n) => single_name_of(tree@, at as int) == Some(n@),
            None => single_name_of(tree@, at as int).is_none(),
        },
{
    match expr_kind(tree, at) {
        Some(ExprKind::Path { qself, segments, .. }) => {
            if !*qself && segments.len() == 1 {
                Some(&segments[0])
            } else {
                None
            }
        },
        _ => None,
    }
}

/// What the path expression at `at` resolves to.
pub fn path_res(tree: &Tree, at: usize) -> (r: Option<Def>)
    requires
        at < tree@.len(),
    ensures
        r == res_of(tree@, at as int),
{
    match expr_kind(tree, at) {
        Some(ExprKind::Path { res, .. }) => Some(*res),
        _ => None,
    }
}

/// The local variable that the expression at `at` names.
pub fn var_def_id(tree: &Tree, at: usize) -> (r: Option<u32>)
    requires
        at < tree@.len(),
    ensures
        r == var_def_id_spec(tree@, at as int),
{
    match path_res(tree, at) {
        Some(Def::Local(id)) => Some(id),
        _ => None,
    }
}

/// Check whether the given expression is a constant literal of the given
/// value.
pub fn is_integer_literal(tree: &Tree, at: usize, value: u64) -> (r: bool)
    requires
        at < tree@.len(),
    ensures
        r == is_integer_literal_spec(tree@, at as int, value),
{
    match expr_kind(tree, at) {
        Some(ExprKind::Lit(Lit::Int(v))) => *v == value,
        _ => false,
    }
}

/// Whether the expression at `at` is a loop.
pub fn is_loop(tree: &Tree, at: usize) -> (r: bool)
    requires
        at < tree@.len(),
    ensures
        r == is_loop_spec(tree@, at as int),
{
    match expr_kind(tree, at) {
        Some(ExprKind::Loop) => true,
        Some(ExprKind::While) => true,
        Some(ExprKind::ForLoop) => true,
        _ => false,
    }
}

/// Whether the expression at `at` is an `if` or a `match`.
pub fn is_conditional(tree: &Tree, at: usize) -> (r: bool)
    requires
        at < tree@.len(),
    ensures
        r == is_conditional_spec(tree@, at as int),
{
    match expr_kind(tree, at) {
        Some(ExprKind::If) => true,
        Some(ExprKind::Match(_)) => true,
        _ => false,
    }
}

/// Get a parent expression if any; this is useful to constrain a lint.
pub fn get_parent_expr(tree: &Tree, at: usize) -> (r: Option<usize>)
    requires
        at < tree@.len(),
    ensures
        r.is_some() == parent_expr_of(tree@, at as int).is_some(),
        r.is_some() ==> r.unwrap() == parent_expr_of(tree@, at as int).unwrap() && r.unwrap() < at,
{
    match tree.parent(at) {
        Some(p) => {
            let above = match &tree.node(p).kind {
                NodeKind::Arm { .. } => tree.parent(p),
                _ => Some(p),
            };
            match above {
                Some(q) => {
                    if expr_kind(tree, q).is_some() {
                        Some(q)
                    } else {
                        None
                    }
                },
                None => None,
            }
        },
        None => None,
    }
}

/// The block that encloses the node at `at`.
pub fn get_enclosing_block(tree: &Tree, at: usize) -> (r: Option<usize>)
    requires
        at < tree@.len(),
    ensures
        r.is_some() == enclosing_block_of(tree@, at as int).is_some(),
        r.is_some() ==> r.unwrap() == enclosing_block_of(tree@, at as int).unwrap() && r.unwrap()
            < tree@.len(),
{
    let mut cur = at;
    let mut fuel = tree.len();
    let mut scope: Option<usize> = None;
    while fuel > 0
        invariant_except_break
            scope.is_none(),
            enclosing_scope_of(tree@, cur as int, fuel as nat) == enclosing_scope_of(
                tree@,
                at as int,
                tree@.len(),
            ),
        invariant
            cur < tree@.len(),
        ensures
            scope.is_some() == enclosing_scope_of(tree@, at as int, tree@.len()).is_some(),
            scope.is_some() ==> scope.unwrap() == enclosing_scope_of(
                tree@,
                at as int,
                tree@.len(),
            ).unwrap() && scope.unwrap() < tree@.len(),
        decreases fuel,
    {
        match tree.parent(cur) {
            Some(p) => {
                let opens = match &tree.node(p).kind {
                    NodeKind::Block => true,
                    NodeKind::Item { .. } => true,
                    _ => false,
                };
                if opens {
                    scope = Some(p);
                    break ;
                }
                cur = p;
                fuel -= 1;
            },
            None => {
                break ;
            },
        }
    }
    match scope {
        Some(p) => match &tree.node(p).kind {
            NodeKind::Block => Some(p),
            NodeKind::Item { item: ItemKind::Fn, .. } => {
                let kids = tree.children(p);
                assert(kids@.map_values(|k: usize| k as int).len() == kids@.len());
                if kids.len() == 1 {
                    assert(kids@.map_values(|k: usize| k as int)[0] == kids[0]);
                    match &tree.node(kids[0]).kind {
                        NodeKind::Block => Some(kids[0]),
                        _ => None,
                    }
                } else {
                    None
                }
            },
            _ => None,
        },
        None => None,
    }
}

/// Whether the node at `at` is an expression.
pub open spec fn is_expr(s: Seq<Slot>, at: int) -> bool {
    expr_kind_of(s, at).is_some()
}

/// The trailing expression of the block at `b`: its last child, if that
/// is an expression.
pub open spec fn block_tail(s: Seq<Slot>, b: int) -> Option<int> {
    let kids = children_of(s, b);
    if kids.len() > 0 && is_expr(s, kids.last()) {
        Some(kids.last())
    } else {
        None
    }
}

/// The statements of the block at `b`.
pub open spec fn block_stmts(s: Seq<Slot>, b: int) -> Seq<int> {
    let kids = children_of(s, b);
    if block_tail(s, b).is_some() {
        kids.drop_last()
    } else {
        kids
    }
}

/// The only child of the node at `at`.
pub open spec fn only_child(s: Seq<Slot>, at: int) -> Option<int> {
    let kids = children_of(s, at);
    if kids.len() == 1 {
        Some(kids[0])
    } else {
        None
    }
}

/// The parts of a match arm, by position.
pub struct ArmParts {
    pub pats: Seq<int>,
    pub guard: Option<int>,
    pub body: int,
}

/// The arm at `at`, if the node there is an arm with the children that it
/// declares.
pub open spec fn arm_of(s: Seq<Slot>, at: int) -> Option<ArmParts> {
    if 0 <= at < s.len() {
        match s[at].node.kind {
            NodeKind::Arm { n_pats, has_guard } => {
                let kids = children_of(s, at);
                let g: int = if has_guard {
                    1
                } else {
                    0
                };
                if kids.len() == n_pats + g + 1 {
                    Some(
                        ArmParts {
                            pats: kids.take(n_pats as int),
                            guard: if has_guard {
                                Some(kids[n_pats as int])
                            } else {
                                None
                            },
                            body: kids.last(),
                        },
                    )
                } else {
                    None
                }
            },
            _ => None,
        }
    } else {
        None
    }
}

/// A match arm: the positions of its patterns, of its guard and of its
/// body.
#[derive(Debug, PartialEq, Eq)]
pub struct Arm {
    pub pats: Vec<usize>,
    pub guard: Option<usize>,
    pub body: usize,
}

impl Arm {
    /// The arm as a mathematical value.
    pub open spec fn parts(&self) -> ArmParts {
        ArmParts {
            pats: self.pats@.map_values(|p: usize| p as int),
            guard: match self.guard {
                Some(g) => Some(g as int),
                None => None,
            },
            body: self.body as int,
        }
    }

    /// Whether the positions in the arm are positions of a tree of `n`
    /// nodes.
    pub open spec fn within(&self, n: nat) -> bool {
        &&& forall|k: int| 0 <= k < self.pats.len() ==> #[trigger] self.pats[k] < n
        &&& self.guard.is_some() ==> self.guard.unwrap() < n
        &&& self.body < n
    }
}

/// Reads the match arm at `at`.
pub fn arm(tree: &Tree, at: usize) -> (r: Option<Arm>)
    requires
        at < tree@.len(),
    ensures
        match r {
            Some(a) => arm_of(tree@, at as int).is_some() && a.parts() == arm_of(tree@, at as int).unwrap()
                && a.within(tree@.len()) && a.body > at,
            None => arm_of(tree@, at as int).is_none(),
        },
{
    match &tree.node(at).kind {
        NodeKind::Arm { n_pats, has_guard } => {
            let kids = tree.children(at);
            let g: usize = if *has_guard {
                1
            } else {
                0
            };
            let n = kids.len();
            if n == 0 || n - 1 < g || *n_pats != n - 1 - g {
                return None;
            }
            let mut pats: Vec<usize> = Vec::new();
            let mut k: usize = 0;
            while k < *n_pats
                invariant
                    k <= *n_pats < kids.len(),
                    pats@ == kids@.take(k as int),
                decreases *n_pats - k,
            {
                pats.push(kids[k]);
                assert(pats@ =~= kids@.take(k + 1));
                k += 1;
            }
            let guard = if *has_guard {
                Some(kids[*n_pats])
            } else {
                None
            };
            let a = Arm { pats, guard, body: kids[n - 1] };
            proof {
                let all = children_of(tree@, at as int);
                assert(a.parts().pats =~= all.take(*n_pats as int));
            }
            Some(a)
        },
        _ => None,
    }
}

/// Reads the parts of the block at `b`: its statements and its trailing
/// expression.
pub fn block_parts(tree: &Tree, b: usize) -> (r: (Vec<usize>, Option<usize>))
    requires
        b < tree@.len(),
    ensures
        r.0@.map_values(|k: usize| k as int) == block_stmts(tree@, b as int),
        r.0@.len() == block_stmts(tree@, b as int).len(),
        forall|k: int| 0 <= k < r.0.len() ==> b < #[trigger] r.0[k] < tree@.len(),
        match r.1 {
            Some(t) => block_tail(tree@, b as int) == Some(t as int) && b < t < tree@.len(),
            None => block_tail(tree@, b as int).is_none(),
        },
{
    let mut kids = tree.children(b);
    let n = kids.len();
    if n > 0 && expr_kind(tree, kids[n - 1]).is_some() {
        let ghost all = kids@;
        let t = kids[n - 1];
        kids.pop();
        assert(kids@ =~= all.drop_last());
        assert(kids@.map_values(|k: usize| k as int) =~= all.map_values(|k: usize| k as int).drop_last());
        (kids, Some(t))
    } else {
        (kids, None)
    }
}

/// The pattern and the body of the arm at `at`, if the arm has exactly
/// one pattern and no guard.
pub open spec fn plain_arm(s: Seq<Slot>, at: int) -> Option<(int, int)> {
    match arm_of(s, at) {
        Some(a) => if a.pats.len() == 1 && a.guard.is_none() {
            Some((a.pats[0], a.body))
        } else {
            None
        },
        None => None,
    }
}

/// Reads an arm with exactly one pattern and no guard.
pub fn plain_arm_at(tree: &Tree, at: usize) -> (r: Option<(usize, usize)>)
    requires
        at < tree@.len(),
    ensures
        match r {
            Some((p, b)) => plain_arm(tree@, at as int) == Some((p as int, b as int)) && p < tree@.len() && b
                < tree@.len(),
            None => plain_arm(tree@, at as int).is_none(),
        },
{
    match arm(tree, at) {
        Some(a) => {
            if a.pats.len() == 1 && a.guard.is_none() {
                assert(a.parts().pats[0] == a.pats[0]);
                Some((a.pats[0], a.body))
            } else {
                None
            }
        },
        None => None,
    }
}

} // verus!
