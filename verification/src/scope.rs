//! Lexical extents: the regions in which bindings are valid. Extents nest;
//! each but an outermost one has an enclosing extent.

use vstd::prelude::*;

verus! {

/// Whether following enclosing extents from `sub` leads to `sup`; every
/// extent reaches itself. `parents[e]` is the extent that encloses `e`.
pub open spec fn reaches(parents: Seq<Option<usize>>, sub: int, sup: int) -> bool
    decreases sub,
{
    if sub == sup {
        true
    } else if 0 <= sub < parents.len() {
        match parents[sub] {
            Some(p) => p < sub && reaches(parents, p as int, sup),
            None => false,
        }
    } else {
        false
    }
}

/// The extent recorded last for the variable `var`, among the first `upto`
/// records.
pub open spec fn scope_of(vars: Seq<(u32, usize)>, var: u32, upto: int) -> Option<usize>
    decreases upto,
{
    if upto <= 0 || upto > vars.len() {
        None
    } else if vars[upto - 1].0 == var {
        Some(vars[upto - 1].1)
    } else {
        scope_of(vars, var, upto - 1)
    }
}

/// Every extent is a sub-extent of itself.
pub proof fn lemma_reaches_reflexive(parents: Seq<Option<usize>>, e: int)
    ensures
        reaches(parents, e, e),
{
}

/// An extent lies at or after each extent that it reaches, so two extents
/// that reach each other are the same.
pub proof fn lemma_reaches_antisymmetric(parents: Seq<Option<usize>>, a: int, b: int)
    requires
        reaches(parents, a, b),
    ensures
        b <= a,
        reaches(parents, b, a) ==> a == b,
    decreases a,
{
    if a != b {
        lemma_reaches_antisymmetric(parents, parents[a].unwrap() as int, b);
        if reaches(parents, b, a) {
            lemma_reaches_antisymmetric(parents, b, a);
        }
    }
}

/// A sub-extent of a sub-extent is a sub-extent.
pub proof fn lemma_reaches_transitive(parents: Seq<Option<usize>>, a: int, b: int, c: int)
    requires
        reaches(parents, a, b),
        reaches(parents, b, c),
    ensures
        reaches(parents, a, c),
    decreases a,
{
    if a != b {
        lemma_reaches_transitive(parents, parents[a].unwrap() as int, b, c);
    }
}

/// The extents of one item, and the extent of each variable declared in
/// it.
#[derive(Debug, PartialEq, Eq)]
pub struct ScopeTree {
    /// For each extent the one that encloses it. An entry that does not
    /// name an earlier extent counts as none.
    pub parents: Vec<Option<usize>>,
    /// The variables with their extents, in the order they were recorded.
    pub vars: Vec<(u32, usize)>,
}

impl ScopeTree {
    /// No extents and no variables.
    pub fn new() -> (t: ScopeTree)
        ensures
            t.parents@ == Seq::<Option<usize>>::empty(),
            t.vars@ == Seq::<(u32, usize)>::empty(),
    {
        ScopeTree { parents: Vec::new(), vars: Vec::new() }
    }

    /// Adds an extent inside `parent` and returns it. A `parent` that is no
    /// extent of this tree gives an outermost extent.
    pub fn add_scope(&mut self, parent: Option<usize>) -> (e: usize)
        ensures
            e == old(self).parents@.len(),
            final(self).vars@ == old(self).vars@,
            final(self).parents@ == old(self).parents@.push(
                match parent {
                    Some(p) => if p < old(self).parents@.len() {
                        Some(p)
                    } else {
                        None
                    },
                    None => None,
                },
            ),
    {
        let e = self.parents.len();
        let enclosing = match parent {
            Some(p) => if p < e {
                Some(p)
            } else {
                None
            },
            None => None,
        };
        self.parents.push(enclosing);
        e
    }

    /// Records that the variable `var` is declared in `extent`.
    pub fn bind(&mut self, var: u32, extent: usize)
        ensures
            final(self).parents@ == old(self).parents@,
            final(self).vars@ == old(self).vars@.push((var, extent)),
    {
        self.vars.push((var, extent));
    }

    /// The extent of the variable `var`, if one is recorded.
    pub fn var_scope(&self, var: u32) -> (r: Option<usize>)
        ensures
            r == scope_of(self.vars@, var, self.vars@.len() as int),
    {
        let mut i = self.vars.len();
        while i > 0
            invariant
                i <= self.vars.len(),
                scope_of(self.vars@, var, i as int) == scope_of(self.vars@, var, self.vars@.len() as int),
            decreases i,
        {
            i -= 1;
            if self.vars[i].0 == var {
                return Some(self.vars[i].1);
            }
        }
        None
    }

    /// Whether `subscope` is `superscope` or lies inside it.
    pub fn is_subscope_of(&self, subscope: usize, superscope: usize) -> (r: bool)
        ensures
            r == reaches(self.parents@, subscope as int, superscope as int),
    {
        let mut s = subscope;
        while s != superscope
            invariant
                reaches(self.parents@, s as int, superscope as int) == reaches(
                    self.parents@,
                    subscope as int,
                    superscope as int,
                ),
            decreases s,
        {
            if s >= self.parents.len() {
                return false;
            }
            match self.parents[s] {
                None => {
                    return false;
                },
                Some(p) => {
                    if p >= s {
                        return false;
                    }
                    s = p;
                },
            }
        }
        true
    }
}

} // verus!
