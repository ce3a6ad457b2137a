//! How one variable is used over one region of the tree: whether a name
//! occurs at all, whether a loop variable is used only to index, whether
//! a variable is incremented exactly once on every pass, and whether it
//! starts from zero.

use vstd::prelude::*;
use crate::node::{BinOp, DeclKind, Def, ExprKind, Mutability, NodeKind, PatKind};
use crate::query::{
    expr_kind, expr_kind_of, get_parent_expr, is_conditional, is_conditional_spec, is_integer_literal,
    is_integer_literal_spec, is_loop, is_loop_spec, parent_expr_of, pat_kind, pat_kind_of, path_res,
    res_of, single_name, single_name_of, var_def_id, var_def_id_spec,
};
use crate::scope::{scope_of, ScopeTree};
use crate::text::text_eq;
use crate::tree::{children_of, is_above, last_of, walk_spec, Slot, Tree, Visitor};

verus! {

/// Whether the expression at `at` is the bare name `name`.
pub open spec fn names(s: Seq<Slot>, at: int, name: Seq<char>) -> bool {
    single_name_of(s, at) == Some(name)
}

/// Whether the name `name` occurs in the subtree at `root`.
pub open spec fn used_in(s: Seq<Slot>, root: int, name: Seq<char>) -> bool {
    exists|i: int| root <= i <= last_of(s, root) && #[trigger] names(s, i, name)
}

/// Whether the name `var` is used as an expression anywhere in the subtree
/// at `root`.
pub fn is_used(tree: &Tree, root: usize, var: &str) -> (r: bool)
    requires
        root < tree@.len(),
    ensures
        r == used_in(tree@, root as int, var@),
{
    let n = tree.len();
    let last = tree.last(root);
    let mut i = root;
    while i <= last
        invariant
            n == tree@.len(),
            root <= i <= last + 1,
            last == last_of(tree@, root as int),
            last < tree@.len(),
            forall|k: int| root <= k < i ==> !#[trigger] names(tree@, k, var@),
        decreases last + 1 - i,
    {
        if let Some(n) = single_name(tree, i) {
            if text_eq(n.as_str(), var) {
                assert(names(tree@, i as int, var@));
                return true;
            }
        }
        i += 1;
    }
    false
}

/// The variable that a definition stands for, if it is a local or a
/// captured one.
pub open spec fn def_var(res: Option<Def>) -> Option<u32> {
    match res {
        Some(Def::Local(id)) => Some(id),
        Some(Def::Upvar(id)) => Some(id),
        _ => None,
    }
}

/// The variable that the expression at `at` names, be it local to where
/// the expression stands or captured by a closure around it.
pub open spec fn variable_of(s: Seq<Slot>, at: int) -> Option<u32> {
    def_var(res_of(s, at))
}

/// The variable that the expression at `at` names.
pub fn variable(tree: &Tree, at: usize) -> (r: Option<u32>)
    requires
        at < tree@.len(),
    ensures
        r == variable_of(tree@, at as int),
{
    match path_res(tree, at) {
        Some(Def::Local(id)) => Some(id),
        Some(Def::Upvar(id)) => Some(id),
        _ => None,
    }
}

/// Whether the variable `var` is named, directly or as a capture, by an
/// expression that comes after position `after` in the subtree at `root`.
pub open spec fn used_after(s: Seq<Slot>, root: int, after: int, var: u32) -> bool {
    exists|i: int| root <= i <= last_of(s, root) && after < i && #[trigger] variable_of(s, i) == Some(var)
}

/// Scans the subtree at `root` for a reference to the variable `var`
/// behind position `after`.
pub fn is_used_after(tree: &Tree, root: usize, after: usize, var: u32) -> (r: bool)
    requires
        root < tree@.len(),
    ensures
        r == used_after(tree@, root as int, after as int, var),
{
    let n = tree.len();
    let last = tree.last(root);
    let mut i = root;
    while i <= last
        invariant
            n == tree@.len(),
            root <= i <= last + 1,
            last == last_of(tree@, root as int),
            last < tree@.len(),
            forall|k: int| root <= k < i && after < k ==> #[trigger] variable_of(tree@, k) != Some(var),
        decreases last + 1 - i,
    {
        if i > after {
            if let Some(id) = variable(tree, i) {
                if id == var {
                    return true;
                }
            }
        }
        i += 1;
    }
    false
}

/// Whether the node at `at` stands inside an `if` or a `match` that lies
/// in the subtree at `root`.
pub open spec fn inside_conditional(s: Seq<Slot>, root: int, at: int) -> bool {
    exists|a: int| root <= a < at && #[trigger] is_above(s, a, at) && is_conditional_spec(s, a)
}

/// Whether the node at `at` stands under a condition within `root`.
pub fn is_inside_conditional(tree: &Tree, root: usize, at: usize) -> (r: bool)
    requires
        at < tree@.len(),
    ensures
        r == inside_conditional(tree@, root as int, at as int),
{
    let mut a = root;
    while a < at
        invariant
            root <= a,
            at < tree@.len(),
            forall|k: int| root <= k < a && k < at ==> !(#[trigger] is_above(tree@, k, at as int)
                && is_conditional_spec(tree@, k)),
        decreases at - a,
    {
        if tree.last(a) >= at && is_conditional(tree, a) {
            assert(is_above(tree@, a as int, at as int));
            return true;
        }
        a += 1;
    }
    false
}

/// The two operands of the node at `at`, if it has exactly two children.
pub open spec fn operands_of(s: Seq<Slot>, at: int) -> Option<(int, int)> {
    let kids = children_of(s, at);
    if kids.len() == 2 {
        Some((kids[0], kids[1]))
    } else {
        None
    }
}

/// The two operands of the node at `at`.
pub fn operands(tree: &Tree, at: usize) -> (r: Option<(usize, usize)>)
    requires
        at < tree@.len(),
    ensures
        match r {
            Some((a, b)) => operands_of(tree@, at as int) == Some((a as int, b as int)) && a < tree@.len()
                && b < tree@.len(),
            None => operands_of(tree@, at as int).is_none(),
        },
{
    let kids = tree.children(at);
    if kids.len() == 2 {
        Some((kids[0], kids[1]))
    } else {
        None
    }
}

/// Where an indexed variable is declared.
#[derive(Clone, Copy, Debug, PartialEq, Eq, Structural)]
pub enum Declared {
    /// A static or a constant: declared outside of every extent.
    Global,
    /// A local variable, declared in the given extent.
    In(usize),
    /// A local variable of which no extent is recorded.
    Unknown,
}

/// The sequence that is indexed by the use of a variable at `at`: the use
/// is the index of an index expression whose indexed part is a bare name.
pub open spec fn indexed_by(s: Seq<Slot>, at: int) -> Option<int> {
    match parent_expr_of(s, at) {
        Some(p) => match (expr_kind_of(s, p), operands_of(s, p)) {
            (Some(ExprKind::Index), Some((seq, idx))) => if idx == at && single_name_of(s, seq).is_some() {
                Some(seq)
            } else {
                None
            },
            _ => None,
        },
        None => None,
    }
}

/// The sequence that the use at `at` indexes.
pub fn index_target(tree: &Tree, at: usize) -> (r: Option<usize>)
    requires
        at < tree@.len(),
    ensures
        match r {
            Some(seq) => indexed_by(tree@, at as int) == Some(seq as int) && seq < tree@.len(),
            None => indexed_by(tree@, at as int).is_none(),
        },
{
    match get_parent_expr(tree, at) {
        Some(p) => {
            let is_index = match expr_kind(tree, p) {
                Some(ExprKind::Index) => true,
                _ => false,
            };
            if !is_index {
                return None;
            }
            match operands(tree, p) {
                Some((seq, idx)) => {
                    if idx == at && single_name(tree, seq).is_some() {
                        Some(seq)
                    } else {
                        None
                    }
                },
                None => None,
            }
        },
        None => None,
    }
}

/// The first position from `from` on at which `m` holds the name `name`.
pub open spec fn entry_of(m: Seq<(Seq<char>, Declared)>, name: Seq<char>, from: int) -> Option<int>
    decreases m.len() - from,
{
    if from < 0 || from >= m.len() {
        None
    } else if m[from].0 == name {
        Some(from)
    } else {
        entry_of(m, name, from + 1)
    }
}

/// `m` with `name` recorded as declared in `d`: the entry for `name` is
/// replaced if there is one, and added at the end if there is none.
pub open spec fn record(m: Seq<(Seq<char>, Declared)>, name: Seq<char>, d: Declared) -> Seq<
    (Seq<char>, Declared),
> {
    match entry_of(m, name, 0) {
        Some(k) => m.update(k, (name, d)),
        None => m.push((name, d)),
    }
}

/// Whether no name stands twice in `m`.
pub open spec fn distinct_names(m: Seq<(Seq<char>, Declared)>) -> bool {
    forall|i: int, j: int| 0 <= i < j < m.len() ==> m[i].0 != m[j].0
}

proof fn lemma_entry_of(m: Seq<(Seq<char>, Declared)>, name: Seq<char>, from: int)
    requires
        0 <= from,
    ensures
        match entry_of(m, name, from) {
            Some(k) => from <= k < m.len() && m[k].0 == name,
            None => forall|i: int| from <= i < m.len() ==> m[i].0 != name,
        },
    decreases m.len() - from,
{
    if from < m.len() && m[from].0 != name {
        lemma_entry_of(m, name, from + 1);
    }
}

/// Recording a name keeps the names distinct: the indexed variables form
/// a map from names.
pub proof fn lemma_record_distinct(m: Seq<(Seq<char>, Declared)>, name: Seq<char>, d: Declared)
    requires
        distinct_names(m),
    ensures
        distinct_names(record(m, name, d)),
{
    lemma_entry_of(m, name, 0);
}

/// The views of the recorded names.
pub open spec fn indexed_view(v: Seq<(String, Declared)>) -> Seq<(Seq<char>, Declared)> {
    v.map_values(|e: (String, Declared)| (e.0@, e.1))
}

/// The state of the scan for uses of a loop variable.
pub struct VarVisitor<'a> {
    /// The extents of the item.
    pub scopes: &'a ScopeTree,
    /// The loop variable, by the identity of its declaration.
    pub var: u32,
    /// The variables that the loop variable indexes, each with where it is
    /// declared. A scan that starts with none records each name once.
    pub indexed: Vec<(String, Declared)>,
    /// Whether the loop variable is used for anything but indexing.
    pub nonindex: bool,
}

pub struct VarModel {
    pub vars: Seq<(u32, usize)>,
    pub parents: Seq<Option<usize>>,
    pub var: u32,
    pub indexed: Seq<(Seq<char>, Declared)>,
    pub nonindex: bool,
}

/// Where the sequence named at `seq` is declared, if it is a variable, a
/// static or a constant.
pub open spec fn declared_of(vars: Seq<(u32, usize)>, s: Seq<Slot>, seq: int) -> Option<Declared> {
    match res_of(s, seq) {
        Some(Def::Local(id)) | Some(Def::Upvar(id)) => match scope_of(vars, id, vars.len() as int) {
            Some(e) => Some(Declared::In(e)),
            None => Some(Declared::Unknown),
        },
        Some(Def::Static) | Some(Def::Const) => Some(Declared::Global),
        _ => None,
    }
}

/// Whether the expression at `at` is a bare name for the variable `var`.
pub open spec fn refers_to(s: Seq<Slot>, at: int, var: u32) -> bool {
    single_name_of(s, at).is_some() && def_var(res_of(s, at)) == Some(var)
}

impl<'a> VarVisitor<'a> {
    fn put(&mut self, name: &String, d: Declared)
        ensures
            final(self).scopes == old(self).scopes,
            final(self).var == old(self).var,
            final(self).nonindex == old(self).nonindex,
            indexed_view(final(self).indexed@) == record(indexed_view(old(self).indexed@), name@, d),
    {
        let n = self.indexed.len();
        let ghost m = indexed_view(self.indexed@);
        let mut k: usize = 0;
        while k < n
            invariant
                k <= n == self.indexed.len(),
                *self == *old(self),
                m == indexed_view(self.indexed@),
                entry_of(m, name@, k as int) == entry_of(m, name@, 0),
            decreases n - k,
        {
            if text_eq(self.indexed[k].0.as_str(), name.as_str()) {
                self.indexed.set(k, (name.clone(), d));
                assert(indexed_view(self.indexed@) =~= m.update(k as int, (name@, d)));
                return ;
            }
            k += 1;
        }
        self.indexed.push((name.clone(), d));
        assert(indexed_view(self.indexed@) =~= m.push((name@, d)));
    }
}

impl<'a> Visitor for VarVisitor<'a> {
    type Model = VarModel;

    open spec fn model(&self) -> VarModel {
        VarModel {
            vars: self.scopes.vars@,
            parents: self.scopes.parents@,
            var: self.var,
            indexed: indexed_view(self.indexed@),
            nonindex: self.nonindex,
        }
    }

    /// At a use of the loop variable: if the use indexes a variable, a
    /// static or a constant by its bare name, that name is recorded with
    /// where it is declared; every other use marks the loop variable as
    /// used otherwise. Other nodes change nothing.
    open spec fn visit_spec(m: VarModel, s: Seq<Slot>, at: int) -> (VarModel, bool) {
        if refers_to(s, at, m.var) {
            match indexed_by(s, at) {
                Some(seq) => match declared_of(m.vars, s, seq) {
                    Some(d) => (
                        VarModel { indexed: record(m.indexed, single_name_of(s, seq).unwrap(), d), ..m },
                        false,
                    ),
                    None => (VarModel { nonindex: true, ..m }, false),
                },
                None => (VarModel { nonindex: true, ..m }, false),
            }
        } else {
            (m, true)
        }
    }

    fn visit(&mut self, tree: &Tree, at: usize) -> (descend: bool) {
        let refers = single_name(tree, at).is_some() && match path_res(tree, at) {
            Some(Def::Local(id)) => id == self.var,
            Some(Def::Upvar(id)) => id == self.var,
            _ => false,
        };
        if !refers {
            return true;
        }
        if let Some(seq) = index_target(tree, at) {
            let declared = match path_res(tree, seq) {
                Some(Def::Local(id)) => match self.scopes.var_scope(id) {
                    Some(e) => Some(Declared::In(e)),
                    None => Some(Declared::Unknown),
                },
                Some(Def::Upvar(id)) => match self.scopes.var_scope(id) {
                    Some(e) => Some(Declared::In(e)),
                    None => Some(Declared::Unknown),
                },
                Some(Def::Static) => Some(Declared::Global),
                Some(Def::Const) => Some(Declared::Global),
                _ => None,
            };
            if let Some(d) = declared {
                if let Some(name) = single_name(tree, seq) {
                    self.put(name, d);
                    return false;
                }
            }
        }
        self.nonindex = true;
        false
    }
}

/// What is known of a variable that may be a loop counter.
#[derive(Clone, Copy, Debug, PartialEq, Eq, Structural)]
pub enum VarState {
    /// Not examined yet.
    Initial,
    /// Incremented exactly once, may be a loop counter.
    IncrOnce,
    /// Declared but not (yet) initialized to zero.
    Declared,
    Warn,
    DontWarn,
}

/// How an expression uses the variable it names.
#[derive(Clone, Copy, Debug, PartialEq, Eq, Structural)]
pub enum Use {
    /// It is the left side of `+= 1`, under no condition.
    Increment,
    /// It is the left side of `+= 1` inside an `if` or a `match`.
    ConditionalIncrement,
    /// It is the left side of `= 0`, under no condition.
    Reset,
    /// It is assigned in another way, or borrowed mutably.
    Write,
    /// Anything else.
    Read,
}

/// How the use at `at` of a variable, with the expression `p` directly
/// above it, touches the variable; conditions count within `root`.
pub open spec fn use_of(s: Seq<Slot>, root: int, at: int, p: int) -> Use {
    match expr_kind_of(s, p) {
        Some(ExprKind::AssignOp(op)) => match operands_of(s, p) {
            Some((lhs, rhs)) => if lhs != at {
                Use::Read
            } else if op == BinOp::Add && is_integer_literal_spec(s, rhs, 1) {
                if inside_conditional(s, root, at) {
                    Use::ConditionalIncrement
                } else {
                    Use::Increment
                }
            } else {
                Use::Write
            },
            None => Use::Read,
        },
        Some(ExprKind::Assign) => match operands_of(s, p) {
            Some((lhs, rhs)) => if lhs != at {
                Use::Read
            } else if is_integer_literal_spec(s, rhs, 0) && !inside_conditional(s, root, at) {
                Use::Reset
            } else {
                Use::Write
            },
            None => Use::Read,
        },
        Some(ExprKind::AddrOf(Mutability::Mutable)) => Use::Write,
        _ => Use::Read,
    }
}

/// Classifies the use at `at`, which has the expression `p` above it.
pub fn classify_use(tree: &Tree, root: usize, at: usize, p: usize) -> (u: Use)
    requires
        at < tree@.len(),
        p < tree@.len(),
    ensures
        u == use_of(tree@, root as int, at as int, p as int),
{
    match expr_kind(tree, p) {
        Some(ExprKind::AssignOp(op)) => match operands(tree, p) {
            Some((lhs, rhs)) => {
                if lhs != at {
                    Use::Read
                } else if *op == BinOp::Add && is_integer_literal(tree, rhs, 1) {
                    if is_inside_conditional(tree, root, at) {
                        Use::ConditionalIncrement
                    } else {
                        Use::Increment
                    }
                } else {
                    Use::Write
                }
            },
            None => Use::Read,
        },
        Some(ExprKind::Assign) => match operands(tree, p) {
            Some((lhs, rhs)) => {
                if lhs != at {
                    Use::Read
                } else if is_integer_literal(tree, rhs, 0) && !is_inside_conditional(tree, root, at) {
                    Use::Reset
                } else {
                    Use::Write
                }
            },
            None => Use::Read,
        },
        Some(ExprKind::AddrOf(Mutability::Mutable)) => Use::Write,
        _ => Use::Read,
    }
}

/// The state of a counter candidate after one more use in the loop body:
/// the first unconditional increment makes it `IncrOnce`, and any other
/// write, or a second increment, makes it `DontWarn` for good.
pub open spec fn incr_step(state: VarState, u: Use) -> VarState {
    match u {
        Use::Increment => if state == VarState::Initial {
            VarState::IncrOnce
        } else {
            VarState::DontWarn
        },
        Use::ConditionalIncrement | Use::Reset | Use::Write => VarState::DontWarn,
        Use::Read => state,
    }
}

/// The first position from `from` on at which `states` holds `id`.
pub open spec fn slot_of(states: Seq<(u32, VarState)>, id: u32, from: int) -> Option<int>
    decreases states.len() - from,
{
    if from < 0 || from >= states.len() {
        None
    } else if states[from].0 == id {
        Some(from)
    } else {
        slot_of(states, id, from + 1)
    }
}

/// The state recorded for the variable `id`.
pub open spec fn state_of(states: Seq<(u32, VarState)>, id: u32) -> VarState {
    match slot_of(states, id, 0) {
        Some(k) => states[k].1,
        None => VarState::Initial,
    }
}

/// `states` with `st` as the state of the variable `id`. A variable keeps
/// the place at which it was first seen.
pub open spec fn set_state(states: Seq<(u32, VarState)>, id: u32, st: VarState) -> Seq<(u32, VarState)> {
    match slot_of(states, id, 0) {
        Some(k) => states.update(k, (id, st)),
        None => states.push((id, st)),
    }
}

/// The scan of a loop body for variables that are incremented exactly
/// once on every pass.
pub struct IncrementVisitor {
    /// The loop body.
    pub root: usize,
    /// The variables seen, each with its state, in the order in which they
    /// were first seen. A scan that starts with none records each
    /// variable once.
    pub states: Vec<(u32, VarState)>,
    /// Set when the scan met a nested loop and gave up.
    pub done: bool,
}

pub struct IncrModel {
    pub root: int,
    pub states: Seq<(u32, VarState)>,
    pub done: bool,
}

impl IncrementVisitor {
    fn find(&self, id: u32) -> (r: Option<usize>)
        ensures
            match r {
                Some(k) => slot_of(self.states@, id, 0) == Some(k as int) && k < self.states.len(),
                None => slot_of(self.states@, id, 0).is_none(),
            },
    {
        let n = self.states.len();
        let mut k: usize = 0;
        while k < n
            invariant
                k <= n == self.states.len(),
                slot_of(self.states@, id, k as int) == slot_of(self.states@, id, 0),
            decreases n - k,
        {
            if self.states[k].0 == id {
                return Some(k);
            }
            k += 1;
        }
        None
    }
}

impl Visitor for IncrementVisitor {
    type Model = IncrModel;

    open spec fn model(&self) -> IncrModel {
        IncrModel { root: self.root as int, states: self.states@, done: self.done }
    }

    /// Once the scan has given up, nothing changes any more. A use of a
    /// local variable that has an expression above it moves the variable's
    /// state by `incr_step`. A loop clears all states and ends the scan.
    open spec fn visit_spec(m: IncrModel, s: Seq<Slot>, at: int) -> (IncrModel, bool) {
        if m.done {
            (m, false)
        } else {
            match var_def_id_spec(s, at) {
                Some(id) => match parent_expr_of(s, at) {
                    Some(p) => (
                        IncrModel {
                            states: set_state(
                                m.states,
                                id,
                                incr_step(state_of(m.states, id), use_of(s, m.root, at, p)),
                            ),
                            ..m
                        },
                        true,
                    ),
                    None => (m, true),
                },
                None => if is_loop_spec(s, at) {
                    (IncrModel { states: Seq::empty(), done: true, ..m }, false)
                } else {
                    (m, true)
                },
            }
        }
    }

    fn visit(&mut self, tree: &Tree, at: usize) -> (descend: bool) {
        if self.done {
            return false;
        }
        if let Some(id) = var_def_id(tree, at) {
            if let Some(p) = get_parent_expr(tree, at) {
                let u = classify_use(tree, self.root, at, p);
                let slot = self.find(id);
                let state = match slot {
                    Some(k) => self.states[k].1,
                    None => VarState::Initial,
                };
                let next = match u {
                    Use::Increment => match state {
                        VarState::Initial => VarState::IncrOnce,
                        _ => VarState::DontWarn,
                    },
                    Use::Read => state,
                    _ => VarState::DontWarn,
                };
                match slot {
                    Some(k) => {
                        self.states.set(k, (id, next));
                    },
                    None => {
                        self.states.push((id, next));
                    },
                }
            }
            true
        } else if is_loop(tree, at) {
            self.states.clear();
            self.done = true;
            false
        } else {
            true
        }
    }
}

/// The state of a counter candidate after a use before its loop: a reset
/// to zero makes it `Warn`, any write makes it `DontWarn`.
pub open spec fn init_step(state: VarState, u: Use) -> VarState {
    match u {
        Use::Increment | Use::ConditionalIncrement | Use::Write => VarState::DontWarn,
        Use::Reset => VarState::Warn,
        Use::Read => state,
    }
}

/// The state of a counter candidate after a use behind its loop: any
/// write makes it `DontWarn`.
pub open spec fn after_step(state: VarState, u: Use) -> VarState {
    match u {
        Use::Read => state,
        _ => VarState::DontWarn,
    }
}

/// The scan of the block around a loop for how a counter candidate is
/// declared and used outside of the loop.
pub struct InitializeVisitor {
    /// The block around the loop.
    pub root: usize,
    /// The loop.
    pub end_expr: usize,
    /// The candidate, by the identity of its declaration.
    pub var_id: u32,
    pub state: VarState,
    /// The candidate's name, once its declaration was seen.
    pub name: Option<String>,
    /// Set from the loop on.
    pub past_loop: bool,
}

pub struct InitModel {
    pub root: int,
    pub end_expr: int,
    pub var_id: u32,
    pub state: VarState,
    pub name: Option<Seq<char>>,
    pub past_loop: bool,
}

/// The name that the declaration at `at` gives to the variable `var`, if
/// it declares that variable by a plain binding.
pub open spec fn declares(s: Seq<Slot>, at: int, var: u32) -> Option<Seq<char>> {
    let kids = children_of(s, at);
    if s[at].node.kind is Decl && kids.len() >= 1 && s[kids[0]].node.id == var {
        match pat_kind_of(s, kids[0]) {
            Some(PatKind::Binding { name, .. }) => Some(name@),
            _ => None,
        }
    } else {
        None
    }
}

/// Whether the declaration at `at` initialises what it declares to the
/// literal zero.
pub open spec fn starts_at_zero(s: Seq<Slot>, at: int) -> bool {
    let kids = children_of(s, at);
    s[at].node.kind == NodeKind::Decl(DeclKind::Local { has_init: true }) && kids.len() == 2
        && is_integer_literal_spec(s, kids[1], 0)
}

impl Visitor for InitializeVisitor {
    type Model = InitModel;

    open spec fn model(&self) -> InitModel {
        InitModel {
            root: self.root as int,
            end_expr: self.end_expr as int,
            var_id: self.var_id,
            state: self.state,
            name: match self.name {
                Some(n) => Some(n@),
                None => None,
            },
            past_loop: self.past_loop,
        }
    }

    /// A candidate in state `DontWarn` stays there. The declaration of the
    /// candidate gives its name, and `Warn` if it starts at zero,
    /// `Declared` if not. Expressions before the declaration are passed
    /// over, and so is the loop itself, from which on every write to the
    /// candidate gives `DontWarn`. Before the loop a use moves the state
    /// by `init_step`, and another loop gives `DontWarn`.
    open spec fn visit_spec(m: InitModel, s: Seq<Slot>, at: int) -> (InitModel, bool) {
        match s[at].node.kind {
            NodeKind::Decl(_) => match declares(s, at, m.var_id) {
                Some(name) => if m.state == VarState::DontWarn {
                    (m, true)
                } else {
                    (
                        InitModel {
                            name: Some(name),
                            state: if starts_at_zero(s, at) {
                                VarState::Warn
                            } else {
                                VarState::Declared
                            },
                            ..m
                        },
                        true,
                    )
                },
                None => (m, true),
            },
            NodeKind::Expr { .. } => if m.state == VarState::DontWarn {
                (m, false)
            } else if at == m.end_expr {
                (InitModel { past_loop: true, ..m }, false)
            } else if m.state == VarState::IncrOnce {
                (m, false)
            } else if var_def_id_spec(s, at) == Some(m.var_id) {
                match parent_expr_of(s, at) {
                    Some(p) => (
                        InitModel {
                            state: if m.past_loop {
                                after_step(m.state, use_of(s, m.root, at, p))
                            } else {
                                init_step(m.state, use_of(s, m.root, at, p))
                            },
                            ..m
                        },
                        true,
                    ),
                    None => (m, true),
                }
            } else if !m.past_loop && is_loop_spec(s, at) {
                (InitModel { state: VarState::DontWarn, ..m }, false)
            } else {
                (m, true)
            },
            _ => (m, true),
        }
    }

    fn visit(&mut self, tree: &Tree, at: usize) -> (descend: bool) {
        match &tree.node(at).kind {
            NodeKind::Decl(decl) => {
                let kids = tree.children(at);
                if kids.len() >= 1 && tree.node(kids[0]).id == self.var_id {
                    if let Some(PatKind::Binding { name, .. }) = pat_kind(tree, kids[0]) {
                        if self.state != VarState::DontWarn {
                            let zero = match decl {
                                DeclKind::Local { has_init } => *has_init && kids.len() == 2
                                    && is_integer_literal(tree, kids[1], 0),
                                DeclKind::Item => false,
                            };
                            self.name = Some(name.clone());
                            self.state = if zero {
                                VarState::Warn
                            } else {
                                VarState::Declared
                            };
                        }
                    }
                }
                true
            },
            NodeKind::Expr { .. } => {
                if self.state == VarState::DontWarn {
                    return false;
                }
                if at == self.end_expr {
                    self.past_loop = true;
                    return false;
                }
                if self.state == VarState::IncrOnce {
                    return false;
                }
                let names_var = match var_def_id(tree, at) {
                    Some(id) => id == self.var_id,
                    None => false,
                };
                if names_var {
                    if let Some(p) = get_parent_expr(tree, at) {
                        let u = classify_use(tree, self.root, at, p);
                        self.state = match u {
                            Use::Read => self.state,
                            Use::Reset => if self.past_loop {
                                VarState::DontWarn
                            } else {
                                VarState::Warn
                            },
                            _ => VarState::DontWarn,
                        };
                    }
                    true
                } else if !self.past_loop && is_loop(tree, at) {
                    self.state = VarState::DontWarn;
                    false
                } else {
                    true
                }
            },
            _ => true,
        }
    }
}

proof fn lemma_slot_of(states: Seq<(u32, VarState)>, id: u32, from: int)
    requires
        0 <= from,
    ensures
        match slot_of(states, id, from) {
            Some(k) => from <= k < states.len() && states[k].0 == id && forall|i: int|
                from <= i < k ==> (#[trigger] states[i]).0 != id,
            None => forall|i: int| from <= i < states.len() ==> (#[trigger] states[i]).0 != id,
        },
    decreases states.len() - from,
{
    if from < states.len() && states[from].0 != id {
        lemma_slot_of(states, id, from + 1);
    }
}

proof fn lemma_slot_found(states: Seq<(u32, VarState)>, id: u32, from: int, k: int)
    requires
        0 <= from <= k < states.len(),
        states[k].0 == id,
        forall|i: int| from <= i < k ==> (#[trigger] states[i]).0 != id,
    ensures
        slot_of(states, id, from) == Some(k),
    decreases k - from,
{
    if from < k {
        lemma_slot_found(states, id, from + 1, k);
    }
}

proof fn lemma_slot_missing(states: Seq<(u32, VarState)>, id: u32, from: int)
    requires
        0 <= from,
        forall|i: int| from <= i < states.len() ==> (#[trigger] states[i]).0 != id,
    ensures
        slot_of(states, id, from).is_none(),
    decreases states.len() - from,
{
    if from < states.len() {
        lemma_slot_missing(states, id, from + 1);
    }
}

/// Setting the state of a variable sets it for that variable, and for no
/// other.
pub proof fn lemma_set_state(states: Seq<(u32, VarState)>, id: u32, st: VarState, other: u32)
    ensures
        state_of(set_state(states, id, st), id) == st,
        other != id ==> state_of(set_state(states, id, st), other) == state_of(states, other),
{
    lemma_slot_of(states, id, 0);
    lemma_slot_of(states, other, 0);
    let after = set_state(states, id, st);
    match slot_of(states, id, 0) {
        Some(k) => {
            lemma_slot_found(after, id, 0, k);
            if other != id {
                match slot_of(states, other, 0) {
                    Some(j) => {
                        lemma_slot_found(after, other, 0, j);
                    },
                    None => {
                        lemma_slot_missing(after, other, 0);
                    },
                }
            }
        },
        None => {
            lemma_slot_found(after, id, 0, states.len() as int);
            if other != id {
                match slot_of(states, other, 0) {
                    Some(j) => {
                        lemma_slot_found(after, other, 0, j);
                    },
                    None => {
                        lemma_slot_missing(after, other, 0);
                    },
                }
            }
        },
    }
}

/// No use in the loop body leads out of `DontWarn`, and no node around
/// the loop does.
pub proof fn lemma_dont_warn_is_final(u: Use, m: InitModel, s: Seq<Slot>, at: int)
    ensures
        incr_step(VarState::DontWarn, u) == VarState::DontWarn,
        m.state == VarState::DontWarn ==> InitializeVisitor::visit_spec(m, s, at).0.state
            == VarState::DontWarn,
{
}

/// A variable that the scan of a loop body has ruled out is no candidate
/// at the end of the scan, whatever the rest of the body holds.
pub proof fn lemma_ruled_out_stays_out(m: IncrModel, s: Seq<Slot>, at: int, last: int, id: u32)
    requires
        state_of(m.states, id) == VarState::DontWarn || (m.done && m.states.len() == 0),
    ensures
        state_of(walk_spec::<IncrementVisitor>(m, s, at, last).states, id) != VarState::IncrOnce,
        ({
            let end = walk_spec::<IncrementVisitor>(m, s, at, last);
            state_of(end.states, id) == VarState::DontWarn || (end.done && end.states.len() == 0)
        }),
    decreases last - at + 1,
{
    if at > last || at < 0 || at >= s.len() {
    } else {
        let (m2, descend) = IncrementVisitor::visit_spec(m, s, at);
        if !m.done {
            match var_def_id_spec(s, at) {
                Some(seen) => match parent_expr_of(s, at) {
                    Some(p) => {
                        let next = incr_step(state_of(m.states, seen), use_of(s, m.root, at, p));
                        lemma_set_state(m.states, seen, next, id);
                    },
                    None => {},
                },
                None => {},
            }
        }
        let next = if descend {
            at + 1
        } else {
            last_of(s, at) + 1
        };
        if next <= last {
            lemma_ruled_out_stays_out(m2, s, next, last, id);
        }
    }
}

/// Once the scan around a loop has ruled the candidate out, it stays
/// ruled out to the end of the scan.
pub proof fn lemma_candidate_stays_out(m: InitModel, s: Seq<Slot>, at: int, last: int)
    requires
        m.state == VarState::DontWarn,
    ensures
        walk_spec::<InitializeVisitor>(m, s, at, last).state == VarState::DontWarn,
    decreases last - at + 1,
{
    if at > last || at < 0 || at >= s.len() {
    } else {
        let (m2, descend) = InitializeVisitor::visit_spec(m, s, at);
        let next = if descend {
            at + 1
        } else {
            last_of(s, at) + 1
        };
        if next <= last {
            lemma_candidate_stays_out(m2, s, next, last);
        }
    }
}

/// Whether no variable stands twice in `states`.
pub open spec fn distinct_ids(states: Seq<(u32, VarState)>) -> bool {
    forall|i: int, j: int| 0 <= i < j < states.len() ==> states[i].0 != states[j].0
}

/// Setting the state of a variable keeps the variables distinct.
pub proof fn lemma_set_state_distinct(states: Seq<(u32, VarState)>, id: u32, st: VarState)
    requires
        distinct_ids(states),
    ensures
        distinct_ids(set_state(states, id, st)),
{
    lemma_slot_of(states, id, 0);
}

/// A scan of a loop body that starts with distinct variables ends with
/// distinct variables: none is recorded twice.
pub proof fn lemma_states_stay_distinct(m: IncrModel, s: Seq<Slot>, at: int, last: int)
    requires
        distinct_ids(m.states),
    ensures
        distinct_ids(walk_spec::<IncrementVisitor>(m, s, at, last).states),
    decreases last - at + 1,
{
    if at > last || at < 0 || at >= s.len() {
    } else {
        let (m2, descend) = IncrementVisitor::visit_spec(m, s, at);
        if !m.done {
            match (var_def_id_spec(s, at), parent_expr_of(s, at)) {
                (Some(seen), Some(p)) => {
                    lemma_set_state_distinct(
                        m.states,
                        seen,
                        incr_step(state_of(m.states, seen), use_of(s, m.root, at, p)),
                    );
                },
                _ => {},
            }
        }
        let next = if descend {
            at + 1
        } else {
            last_of(s, at) + 1
        };
        if next <= last {
            lemma_states_stay_distinct(m2, s, next, last);
        }
    }
}

/// A scan for index uses that starts with distinct names ends with
/// distinct names: no indexed variable is recorded twice.
pub proof fn lemma_indexed_stay_distinct(m: VarModel, s: Seq<Slot>, at: int, last: int)
    requires
        distinct_names(m.indexed),
    ensures
        distinct_names(walk_spec::<VarVisitor>(m, s, at, last).indexed),
    decreases last - at + 1,
{
    if at > last || at < 0 || at >= s.len() {
    } else {
        let (m2, descend) = VarVisitor::visit_spec(m, s, at);
        if refers_to(s, at, m.var) {
            match indexed_by(s, at) {
                Some(seq) => match declared_of(m.vars, s, seq) {
                    Some(d) => {
                        lemma_record_distinct(m.indexed, single_name_of(s, seq).unwrap(), d);
                    },
                    None => {},
                },
                None => {},
            }
        }
        let next = if descend {
            at + 1
        } else {
            last_of(s, at) + 1
        };
        if next <= last {
            lemma_indexed_stay_distinct(m2, s, next, last);
        }
    }
}

} // verus!
