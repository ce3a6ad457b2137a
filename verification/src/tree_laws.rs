//! What the layout of a tree guarantees: the children of a node are the
//! nodes whose parent it is, a tree built from subtrees has their roots
//! as its children, and a walk that skips nothing meets every node of a
//! subtree once, in order.

use vstd::prelude::*;
use crate::tree::{
    children_of, flatten, forest_wf, is_above, last_of, nearest_above, parent_of, siblings, tree_wf, walk_spec,
    Slot, Tree, Visitor,
};

verus! {

proof fn lemma_siblings(s: Seq<Slot>, from: int, last: int, k: int)
    requires
        forest_wf(s),
        0 <= from,
        last < s.len(),
        0 <= k < siblings(s, from, last).len(),
    ensures
        from <= siblings(s, from, last)[k] <= last,
        forall|q: int| from <= q < siblings(s, from, last)[k] ==> #[trigger] last_of(s, q) < siblings(s, from, last)[k],
    decreases last - from,
{
    if from > last {
    } else if last_of(s, from) >= last {
    } else if k > 0 {
        let next = last_of(s, from) + 1;
        let rest = siblings(s, next, last);
        assert(siblings(s, from, last) == seq![from] + rest);
        assert(siblings(s, from, last)[k] == rest[k - 1]);
        lemma_siblings(s, next, last, k - 1);
        let c = rest[k - 1];
        assert forall|q: int| from <= q < c implies #[trigger] last_of(s, q) < c by {
            if q < next {
                if q > from {
                    assert(last_of(s, q) <= last_of(s, from));
                }
            }
        }
    }
}

proof fn lemma_nearest_above(s: Seq<Slot>, at: int, from: int, p: int)
    requires
        0 <= p <= from,
        is_above(s, p, at),
        forall|q: int| p < q <= from ==> !#[trigger] is_above(s, q, at),
    ensures
        nearest_above(s, at, from) == Some(p),
    decreases from - p,
{
    if from > p {
        lemma_nearest_above(s, at, from - 1, p);
    }
}

/// The children of a node lie in its subtree, and the node is their
/// parent.
pub proof fn lemma_child_parent(s: Seq<Slot>, at: int, k: int)
    requires
        forest_wf(s),
        0 <= at < s.len(),
        0 <= k < children_of(s, at).len(),
    ensures
        at < children_of(s, at)[k] <= last_of(s, at),
        parent_of(s, children_of(s, at)[k]) == Some(at),
{
    assert(last_of(s, at) < s.len());
    lemma_siblings(s, at + 1, last_of(s, at), k);
    let c = children_of(s, at)[k];
    assert forall|q: int| at < q <= c - 1 implies !#[trigger] is_above(s, q, c) by {
        assert(last_of(s, q) < c);
    }
    lemma_nearest_above(s, c, c - 1, at);
}

/// The position at which the `k`-th of the given trees begins once they
/// are laid out one after the other behind a root.
pub open spec fn root_of(trees: Seq<Tree>, k: int) -> int
    decreases k,
{
    if k <= 0 {
        1
    } else {
        root_of(trees, k - 1) + trees[k - 1]@.len()
    }
}

proof fn lemma_flatten_len(trees: Seq<Tree>, k: int)
    requires
        0 <= k <= trees.len(),
    ensures
        flatten(trees.take(k)).len() + 1 == root_of(trees, k),
    decreases k,
{
    if k > 0 {
        lemma_flatten_len(trees, k - 1);
        assert(trees.take(k).drop_last() =~= trees.take(k - 1));
        assert(trees.take(k).last() == trees[k - 1]);
    } else {
        assert(trees.take(0) =~= Seq::<Tree>::empty());
    }
}

proof fn lemma_flatten_slot(trees: Seq<Tree>, k: int, i: int)
    requires
        0 <= k < trees.len(),
        0 <= i < trees[k]@.len(),
    ensures
        root_of(trees, k) - 1 + i < flatten(trees).len(),
        flatten(trees)[root_of(trees, k) - 1 + i] == trees[k]@[i],
    decreases trees.len(),
{
    let n = trees.len() as int;
    let pre = trees.drop_last();
    lemma_flatten_len(trees, n - 1);
    assert(trees.take(n - 1) =~= pre);
    assert(flatten(trees) == flatten(pre) + trees.last()@);
    if k < n - 1 {
        lemma_flatten_slot(pre, k, i);
        lemma_root_of_prefix(trees, n - 1, k);
        lemma_root_positive(trees, k);
        assert(pre == trees.take(n - 1));
        assert(root_of(pre, k) == root_of(trees, k));
        assert(pre[k] == trees[k]);
        let at = root_of(trees, k) - 1 + i;
        assert(0 <= at < flatten(pre).len());
        assert(flatten(trees)[at] == flatten(pre)[at]);
    } else {
        let at = flatten(pre).len() + i;
        assert(flatten(trees)[at] == trees.last()@[i]);
    }
}

proof fn lemma_root_of_prefix(trees: Seq<Tree>, m: int, k: int)
    requires
        0 <= k <= m <= trees.len(),
    ensures
        root_of(trees.take(m), k) == root_of(trees, k),
    decreases k,
{
    if k > 0 {
        lemma_root_of_prefix(trees, m, k - 1);
    }
}

proof fn lemma_siblings_of_trees(s: Seq<Slot>, trees: Seq<Tree>, k: int)
    requires
        s.len() == flatten(trees).len() + 1,
        forall|j: int, i: int|
            0 <= j < trees.len() && 0 <= i < trees[j]@.len() ==> s[root_of(trees, j) + i] == #[trigger] trees[j]@[i],
        forall|j: int| 0 <= j < trees.len() ==> tree_wf(#[trigger] trees[j]@),
        0 <= k <= trees.len(),
    ensures
        siblings(s, root_of(trees, k), s.len() - 1) =~= Seq::new(
            (trees.len() - k) as nat,
            |j: int| root_of(trees, k + j),
        ),
    decreases trees.len() - k,
{
    let n = trees.len() as int;
    let last = s.len() - 1;
    lemma_flatten_len(trees, n);
    assert(trees.take(n) =~= trees);
    lemma_root_grows(trees, k, n);
    if k == n {
    } else {
        lemma_siblings_of_trees(s, trees, k + 1);
        let from = root_of(trees, k);
        assert(trees[k]@.len() >= 1);
        assert(s[from + 0] == trees[k]@[0]);
        assert(last_of(s, from) + 1 == root_of(trees, k + 1));
        lemma_root_grows(trees, k + 1, n);
        let rest = siblings(s, root_of(trees, k + 1), last);
        if last_of(s, from) >= last {
            assert(root_of(trees, k + 1) == s.len());
            if k + 1 < n {
                lemma_root_grows(trees, k + 1, k + 2);
                lemma_root_grows(trees, k + 2, n);
                assert(trees[k + 1]@.len() >= 1);
            }
        } else {
            assert(siblings(s, from, last) == seq![from] + rest);
        }
    }
}

proof fn lemma_root_grows(trees: Seq<Tree>, j: int, k: int)
    requires
        0 <= j <= k <= trees.len(),
    ensures
        1 <= root_of(trees, j) <= root_of(trees, k),
    decreases k - j,
{
    if j < k {
        lemma_root_grows(trees, j, k - 1);
    } else {
        lemma_root_positive(trees, j);
    }
}

proof fn lemma_root_positive(trees: Seq<Tree>, k: int)
    ensures
        root_of(trees, k) >= 1,
    decreases k,
{
    if k > 0 {
        lemma_root_positive(trees, k - 1);
    }
}

/// A tree built from a root and subtrees has the roots of the subtrees as
/// the children of its root, in the order given, and each subtree stands
/// unchanged at its place.
pub proof fn lemma_branch_children(s: Seq<Slot>, root: Slot, trees: Seq<Tree>)
    requires
        s == seq![root] + flatten(trees),
        root.descendants == flatten(trees).len(),
        forall|j: int| 0 <= j < trees.len() ==> tree_wf(#[trigger] trees[j]@),
    ensures
        children_of(s, 0) =~= Seq::new(trees.len(), |j: int| root_of(trees, j)),
        forall|j: int, i: int|
            0 <= j < trees.len() && 0 <= i < trees[j]@.len() ==> s[root_of(trees, j) + i] == #[trigger] trees[j]@[i],
{
    assert forall|j: int, i: int| 0 <= j < trees.len() && 0 <= i < trees[j]@.len() implies s[root_of(trees, j)
        + i] == #[trigger] trees[j]@[i] by {
        lemma_flatten_slot(trees, j, i);
        lemma_root_positive(trees, j);
        assert(s[root_of(trees, j) + i] == flatten(trees)[root_of(trees, j) - 1 + i]);
    }
    lemma_siblings_of_trees(s, trees, 0);
    assert(last_of(s, 0) == s.len() - 1);
}

/// The state after every node at the positions `at..end` was visited in
/// turn.
pub open spec fn visit_each<V: Visitor>(m: V::Model, s: Seq<Slot>, at: int, end: int) -> V::Model
    decreases end - at,
{
    if at >= end {
        m
    } else {
        visit_each::<V>(V::visit_spec(m, s, at).0, s, at + 1, end)
    }
}

/// A walk whose visitor never skips a subtree visits every node of the
/// subtree once, parents before children and siblings in source order.
pub proof fn lemma_walk_without_pruning<V: Visitor>(m: V::Model, s: Seq<Slot>, at: int, last: int)
    requires
        0 <= at <= last < s.len(),
        forall|x: V::Model, i: int| (#[trigger] V::visit_spec(x, s, i)).1,
    ensures
        walk_spec::<V>(m, s, at, last) == visit_each::<V>(m, s, at, last + 1),
    decreases last - at,
{
    let step = V::visit_spec(m, s, at);
    assert(step.1);
    if at < last {
        lemma_walk_without_pruning::<V>(step.0, s, at + 1, last);
    } else {
        assert(visit_each::<V>(step.0, s, at + 1, last + 1) == step.0);
    }
}

} // verus!
