//! The program tree, laid out in depth-first pre-order: a node is followed
//! by its first child's subtree, then its second child's, and so on. A
//! position in that layout names a node.

use vstd::prelude::*;
use crate::node::Node;

verus! {

/// A node together with the number of nodes below it.
#[derive(Debug, PartialEq, Eq)]
pub struct Slot {
    pub node: Node,
    pub descendants: usize,
}

/// The position of the last node of the subtree at `at`.
pub open spec fn last_of(s: Seq<Slot>, at: int) -> int {
    at + s[at].descendants
}

/// Every subtree lies inside the sequence, and two subtrees are either
/// nested or apart.
pub open spec fn forest_wf(s: Seq<Slot>) -> bool {
    &&& forall|i: int| 0 <= i < s.len() ==> #[trigger] last_of(s, i) < s.len()
    &&& forall|i: int, j: int|
        0 <= i < j < s.len() && j <= last_of(s, i) ==> #[trigger] last_of(s, j) <= #[trigger] last_of(
            s,
            i,
        )
}

/// A forest that is one tree: the node at position 0 is above all others.
pub open spec fn tree_wf(s: Seq<Slot>) -> bool {
    &&& s.len() >= 1
    &&& last_of(s, 0) + 1 == s.len()
    &&& forest_wf(s)
}

/// The positions of `from` and of the siblings after it, where `last` is
/// the position of the last node under their parent.
pub open spec fn siblings(s: Seq<Slot>, from: int, last: int) -> Seq<int>
    decreases last - from + 1,
{
    if from > last || from < 0 || from >= s.len() {
        Seq::empty()
    } else if last_of(s, from) >= last {
        seq![from]
    } else {
        seq![from] + siblings(s, last_of(s, from) + 1, last)
    }
}

/// The positions of the children of the node at `at`, in source order.
pub open spec fn children_of(s: Seq<Slot>, at: int) -> Seq<int> {
    siblings(s, at + 1, last_of(s, at))
}

/// Whether the node at `above` is an ancestor of the node at `at`.
pub open spec fn is_above(s: Seq<Slot>, above: int, at: int) -> bool {
    0 <= above < at <= last_of(s, above)
}

/// The nearest ancestor of the node at `at` among the positions up to
/// `from`.
pub open spec fn nearest_above(s: Seq<Slot>, at: int, from: int) -> Option<int>
    decreases from + 1,
{
    if from < 0 {
        None
    } else if is_above(s, from, at) {
        Some(from)
    } else {
        nearest_above(s, at, from - 1)
    }
}

/// The position of the parent of the node at `at`: the nearest position
/// before it whose subtree holds it.
pub open spec fn parent_of(s: Seq<Slot>, at: int) -> Option<int> {
    nearest_above(s, at, at - 1)
}

/// The first position that holds a node with the identity `id`, among the
/// positions from `from` on.
pub open spec fn position_of(s: Seq<Slot>, id: u32, from: int) -> Option<int>
    decreases s.len() - from,
{
    if from < 0 || from >= s.len() {
        None
    } else if s[from].node.id == id {
        Some(from)
    } else {
        position_of(s, id, from + 1)
    }
}

/// The nodes of the given trees, one tree after the other.
pub open spec fn flatten(trees: Seq<Tree>) -> Seq<Slot>
    decreases trees.len(),
{
    if trees.len() == 0 {
        Seq::empty()
    } else {
        flatten(trees.drop_last()) + trees.last()@
    }
}

proof fn lemma_forest_concat(a: Seq<Slot>, b: Seq<Slot>)
    requires
        forest_wf(a),
        forest_wf(b),
    ensures
        forest_wf(a + b),
{
    let s = a + b;
    assert forall|i: int| 0 <= i < s.len() implies #[trigger] last_of(s, i) < s.len() by {
        if i < a.len() {
            assert(last_of(a, i) < a.len());
        } else {
            assert(last_of(b, i - a.len()) < b.len());
        }
    }
    assert forall|i: int, j: int|
        0 <= i < j < s.len() && j <= last_of(s, i) implies #[trigger] last_of(s, j) <= #[trigger] last_of(
        s,
        i,
    ) by {
        if i < a.len() {
            assert(last_of(a, i) < a.len());
            assert(last_of(a, j) <= last_of(a, i));
        } else {
            assert(last_of(b, j - a.len()) <= last_of(b, i - a.len()));
        }
    }
}

proof fn lemma_tree_from_forest(root: Slot, f: Seq<Slot>)
    requires
        forest_wf(f),
        root.descendants == f.len(),
    ensures
        tree_wf(seq![root] + f),
{
    let s = seq![root] + f;
    assert forall|i: int| 0 <= i < s.len() implies #[trigger] last_of(s, i) < s.len() by {
        if i > 0 {
            assert(last_of(f, i - 1) < f.len());
        }
    }
    assert forall|i: int, j: int|
        0 <= i < j < s.len() && j <= last_of(s, i) implies #[trigger] last_of(s, j) <= #[trigger] last_of(
        s,
        i,
    ) by {
        assert(last_of(f, j - 1) < f.len());
        if i > 0 {
            assert(last_of(f, j - 1) <= last_of(f, i - 1));
        }
    }
}

/// A program tree. Its nodes are reached by position; position 0 is the
/// root.
#[derive(Debug, PartialEq, Eq)]
pub struct Tree {
    slots: Vec<Slot>,
}

impl View for Tree {
    type V = Seq<Slot>;

    closed spec fn view(&self) -> Seq<Slot> {
        self.slots@
    }
}

impl Tree {
    #[verifier::type_invariant]
    spec fn inv(self) -> bool {
        tree_wf(self.slots@)
    }

    /// A tree of one node.
    pub fn leaf(node: Node) -> (t: Tree)
        ensures
            t@ == seq![Slot { node, descendants: 0 }],
            tree_wf(t@),
    {
        let mut slots: Vec<Slot> = Vec::new();
        slots.push(Slot { node, descendants: 0 });
        assert(slots@ =~= seq![Slot { node, descendants: 0 }]);
        Tree { slots }
    }

    /// The tree with `node` at the root and the given trees below it, in
    /// that order.
    pub fn branch(node: Node, children: Vec<Tree>) -> (t: Tree)
        ensures
            t@ == seq![Slot { node, descendants: flatten(children@).len() as usize }] + flatten(
                children@,
            ),
            flatten(children@).len() <= usize::MAX,
            tree_wf(t@),
    {
        let mut rest: Vec<Slot> = Vec::new();
        let ghost all = children@;
        for child in it: children
            invariant
                it.seq() == all,
                rest@ == flatten(all.take(it.index())),
                forest_wf(rest@),
        {
            proof {
                use_type_invariant(&child);
                let k = it.index();
                assert(all.take(k + 1).drop_last() =~= all.take(k));
                assert(all.take(k + 1).last() == child);
                lemma_forest_concat(rest@, child@);
            }
            let Tree { slots } = child;
            let mut slots = slots;
            rest.append(&mut slots);
        }
        assert(all.take(all.len() as int) =~= all);
        let root = Slot { node, descendants: rest.len() };
        proof {
            lemma_tree_from_forest(root, rest@);
        }
        let mut slots: Vec<Slot> = Vec::new();
        slots.push(root);
        slots.append(&mut rest);
        assert(slots@ =~= seq![root] + flatten(all));
        Tree { slots }
    }

    /// The number of nodes.
    pub fn len(&self) -> (n: usize)
        ensures
            n == self@.len(),
            tree_wf(self@),
    {
        proof {
            use_type_invariant(self);
        }
        self.slots.len()
    }

    /// The node at position `at`.
    pub fn node(&self, at: usize) -> (n: &Node)
        requires
            at < self@.len(),
        ensures
            *n == self@[at as int].node,
    {
        &self.slots[at].node
    }

    /// The position of the last node in the subtree at `at`.
    pub fn last(&self, at: usize) -> (r: usize)
        requires
            at < self@.len(),
        ensures
            r == last_of(self@, at as int),
            at <= r < self@.len(),
    {
        proof {
            use_type_invariant(self);
            assert(last_of(self.slots@, at as int) < self.slots@.len());
        }
        at + self.slots[at].descendants
    }

    /// The positions of the children of the node at `at`, in source order.
    pub fn children(&self, at: usize) -> (kids: Vec<usize>)
        requires
            at < self@.len(),
        ensures
            kids@.map_values(|k: usize| k as int) == children_of(self@, at as int),
            kids@.len() == children_of(self@, at as int).len(),
            forall|k: int| 0 <= k < kids.len() ==> #[trigger] kids[k] == children_of(self@, at as int)[k],
            forall|k: int| 0 <= k < kids.len() ==> at < #[trigger] kids[k] <= last_of(self@, at as int),
            forall|k: int| 0 <= k < kids.len() ==> #[trigger] kids[k] < self@.len(),
    {
        let n = self.slots.len();
        let last = self.last(at);
        let mut kids: Vec<usize> = Vec::new();
        let mut c: usize = at + 1;
        let ghost first = (at + 1) as int;
        proof {
            use_type_invariant(self);
        }
        while c <= last
            invariant
                at < c,
                n == self@.len(),
                last == last_of(self@, at as int),
                last < self@.len(),
                self@ == self.slots@,
                forall|i: int| 0 <= i < self@.len() ==> #[trigger] last_of(self@, i) < self@.len(),
                forall|k: int| 0 <= k < kids.len() ==> at < #[trigger] kids[k] <= last,
                kids@.map_values(|k: usize| k as int) + siblings(self@, c as int, last as int)
                    == siblings(self@, first, last as int),
            decreases (if c <= last { last + 1 - c } else { 0 }),
        {
            let ghost before = kids@.map_values(|k: usize| k as int);
            assert(last_of(self@, c as int) < self@.len());
            let end = c + self.slots[c].descendants;
            kids.push(c);
            proof {
                assert(kids@.map_values(|k: usize| k as int) =~= before + seq![c as int]);
                if end >= last {
                    assert(siblings(self@, c as int, last as int) =~= seq![c as int]);
                    assert(siblings(self@, end + 1, last as int) =~= Seq::<int>::empty());
                } else {
                    assert(siblings(self@, c as int, last as int) =~= seq![c as int] + siblings(
                        self@,
                        end + 1,
                        last as int,
                    ));
                }
                assert(kids@.map_values(|k: usize| k as int) + siblings(self@, end + 1, last as int)
                    =~= before + siblings(self@, c as int, last as int));
            }
            c = end + 1;
        }
        proof {
            assert(siblings(self@, c as int, last as int) =~= Seq::<int>::empty());
            assert(kids@.map_values(|k: usize| k as int) + Seq::<int>::empty()
                =~= kids@.map_values(|k: usize| k as int));
            assert forall|k: int| 0 <= k < kids.len() implies #[trigger] kids[k] == children_of(
                self@,
                at as int,
            )[k] by {
                assert(kids@.map_values(|k: usize| k as int)[k] == kids[k]);
            }
        }
        kids
    }

    /// The position of the parent of the node at `at`, if it has one.
    pub fn parent(&self, at: usize) -> (p: Option<usize>)
        requires
            at < self@.len(),
        ensures
            p.is_some() == parent_of(self@, at as int).is_some(),
            p.is_some() ==> p.unwrap() == parent_of(self@, at as int).unwrap() && p.unwrap() < at,
    {
        let mut j: usize = at;
        while j > 0
            invariant
                j <= at < self@.len(),
                self@ == self.slots@,
                nearest_above(self@, at as int, j - 1) == parent_of(self@, at as int),
            decreases j,
        {
            j -= 1;
            let d = self.slots[j].descendants;
            if d >= at - j {
                return Some(j);
            }
        }
        None
    }

    /// The first position that holds a node with the identity `id`.
    pub fn find(&self, id: u32) -> (p: Option<usize>)
        ensures
            p.is_some() == position_of(self@, id, 0).is_some(),
            p.is_some() ==> p.unwrap() == position_of(self@, id, 0).unwrap() && p.unwrap() < self@.len()
                && self@[p.unwrap() as int].node.id == id,
    {
        let n = self.slots.len();
        let mut i: usize = 0;
        while i < n
            invariant
                i <= n == self@.len(),
                self@ == self.slots@,
                position_of(self@, id, i as int) == position_of(self@, id, 0),
            decreases n - i,
        {
            if self.slots[i].node.id == id {
                return Some(i);
            }
            i += 1;
        }
        None
    }
}

/// A traversal's state and what it does at each node. The walk hands every
/// node of a subtree to `visit`, parents before children and siblings in
/// source order, and skips the subtree of a node for which `visit` answers
/// `false`.
pub trait Visitor: Sized {
    /// The state as a mathematical value.
    type Model;

    spec fn model(&self) -> Self::Model;

    /// The state after the node at `at`, and whether the walk goes on into
    /// the node's subtree.
    spec fn visit_spec(m: Self::Model, tree: Seq<Slot>, at: int) -> (Self::Model, bool);

    fn visit(&mut self, tree: &Tree, at: usize) -> (descend: bool)
        requires
            at < tree@.len(),
        ensures
            (final(self).model(), descend) == Self::visit_spec(old(self).model(), tree@, at as int),
    ;
}

/// The state after a walk over the positions `at ..= last`.
pub open spec fn walk_spec<V: Visitor>(m: V::Model, tree: Seq<Slot>, at: int, last: int) -> V::Model
    decreases last - at + 1,
{
    if at > last || at < 0 || at >= tree.len() {
        m
    } else {
        let (m2, descend) = V::visit_spec(m, tree, at);
        let next = if descend {
            at + 1
        } else {
            last_of(tree, at) + 1
        };
        if next > last {
            m2
        } else {
            walk_spec::<V>(m2, tree, next, last)
        }
    }
}

/// Visits all nodes of the subtree at `root` depth-first, in pre-order.
pub fn walk<V: Visitor>(v: &mut V, tree: &Tree, root: usize)
    requires
        root < tree@.len(),
    ensures
        final(v).model() == walk_spec::<V>(old(v).model(), tree@, root as int, last_of(tree@, root as int)),
{
    let n = tree.len();
    let last = tree.last(root);
    let mut at: usize = root;
    while at <= last
        invariant
            root <= at,
            n == tree@.len(),
            last == last_of(tree@, root as int),
            last < tree@.len(),
            at <= last ==> walk_spec::<V>(v.model(), tree@, at as int, last as int) == walk_spec::<V>(
                old(v).model(),
                tree@,
                root as int,
                last as int,
            ),
            at > last ==> v.model() == walk_spec::<V>(old(v).model(), tree@, root as int, last as int),
        decreases (if at <= last { last + 1 - at } else { 0 }),
    {
        let descend = v.visit(tree, at);
        if descend {
            at = at + 1;
        } else {
            at = tree.last(at) + 1;
        }
    }
}

} // verus!
