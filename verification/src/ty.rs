//! The types that the type checker assigned to expressions, as far as the
//! detectors read them.

use vstd::prelude::*;
use crate::text::text_eq;

verus! {

/// An expression's type. A nominal type is known by the absolute path of
/// its definition, its segments joined by `::`.
#[derive(Debug, PartialEq, Eq)]
pub enum Ty {
    Bool,
    Int,
    Uint,
    /// A struct or an enum, with its type arguments; `copy` tells whether
    /// values of it are copied rather than moved.
    Adt { path: String, args: Vec<Ty>, copy: bool },
    Ref(Box<Ty>),
    Array(Box<Ty>, usize),
    Slice(Box<Ty>),
    FnDef { is_unsafe: bool },
    FnPtr { is_unsafe: bool },
    Other,
}

impl Ty {
    /// The definition path of a nominal type.
    pub open spec fn adt_path(self) -> Option<Seq<char>> {
        match self {
            Ty::Adt { path, .. } => Some(path@),
            _ => None,
        }
    }

    /// `self` with every outer reference removed.
    pub open spec fn peeled(self) -> Ty
        decreases self,
    {
        match self {
            Ty::Ref(inner) => inner.peeled(),
            _ => self,
        }
    }

    /// The number of outer references of `self`.
    pub open spec fn ref_depth(self) -> nat
        decreases self,
    {
        match self {
            Ty::Ref(inner) => 1 + inner.ref_depth(),
            _ => 0,
        }
    }

    pub open spec fn is_integral_spec(self) -> bool {
        self is Int || self is Uint
    }

    /// Whether the type is an integer type.
    pub fn is_integral(&self) -> (r: bool)
        ensures
            r == self.is_integral_spec(),
    {
        match self {
            Ty::Int => true,
            Ty::Uint => true,
            _ => false,
        }
    }

    /// Whether the type is `bool`.
    pub fn is_bool(&self) -> (r: bool)
        ensures
            r == (*self is Bool),
    {
        match self {
            Ty::Bool => true,
            _ => false,
        }
    }
}

/// Check if a definition's absolute path is the given one.
pub fn match_def_path(def_path: &str, path: &str) -> (r: bool)
    ensures
        r == (def_path@ == path@),
{
    text_eq(def_path, path)
}

/// What `match_type` answers.
pub open spec fn match_type_spec(ty: Ty, path: Seq<char>) -> bool {
    ty.adt_path() == Some(path)
}

/// Check if type is struct or enum type with given def path.
pub fn match_type(ty: &Ty, path: &str) -> (r: bool)
    ensures
        r == match_type_spec(*ty, path@),
{
    match ty {
        Ty::Adt { path: p, .. } => match_def_path(p.as_str(), path),
        _ => false,
    }
}

/// Return the base type for references.
pub fn walk_ptrs_ty(ty: &Ty) -> (r: &Ty)
    ensures
        *r == ty.peeled(),
    decreases *ty,
{
    match ty {
        Ty::Ref(inner) => walk_ptrs_ty(&**inner),
        _ => ty,
    }
}

/// Return the base type for references, and count reference depth.
pub fn walk_ptrs_ty_depth(ty: &Ty) -> (r: (&Ty, usize))
    requires
        ty.ref_depth() <= usize::MAX,
    ensures
        *r.0 == ty.peeled(),
        r.1 == ty.ref_depth(),
{
    let mut cur = ty;
    let mut depth: usize = 0;
    loop
        invariant
            cur.peeled() == ty.peeled(),
            depth + cur.ref_depth() == ty.ref_depth(),
            ty.ref_depth() <= usize::MAX,
        decreases *cur,
    {
        match cur {
            Ty::Ref(inner) => {
                cur = &**inner;
                depth += 1;
            },
            _ => {
                return (cur, depth);
            },
        }
    }
}

/// Return whether the given type is an `unsafe` function.
pub fn type_is_unsafe_function(ty: &Ty) -> (r: bool)
    ensures
        r == match *ty {
            Ty::FnDef { is_unsafe } => is_unsafe,
            Ty::FnPtr { is_unsafe } => is_unsafe,
            _ => false,
        },
{
    match ty {
        Ty::FnDef { is_unsafe } => *is_unsafe,
        Ty::FnPtr { is_unsafe } => *is_unsafe,
        _ => false,
    }
}

/// What `is_copy` answers: whether values of the type are copied.
pub open spec fn is_copy_spec(ty: Ty) -> bool
    decreases ty,
{
    match ty {
        Ty::Bool | Ty::Int | Ty::Uint => true,
        Ty::Adt { copy, .. } => copy,
        Ty::Ref(_) => true,
        Ty::Array(elem, _) => is_copy_spec(*elem),
        Ty::Slice(_) => false,
        Ty::FnDef { .. } | Ty::FnPtr { .. } => true,
        Ty::Other => false,
    }
}

/// Whether values of the type are copied rather than moved.
pub fn is_copy(ty: &Ty) -> (r: bool)
    ensures
        r == is_copy_spec(*ty),
    decreases *ty,
{
    match ty {
        Ty::Bool => true,
        Ty::Int => true,
        Ty::Uint => true,
        Ty::Adt { copy, .. } => *copy,
        Ty::Ref(_) => true,
        Ty::Array(elem, _) => is_copy(&**elem),
        Ty::Slice(_) => false,
        Ty::FnDef { .. } => true,
        Ty::FnPtr { .. } => true,
        Ty::Other => false,
    }
}

/// Whether two types are the same: of the same shape, with the same
/// definitions and the same type arguments.
pub open spec fn same_tys_spec(a: Ty, b: Ty) -> bool
    decreases a,
{
    match (a, b) {
        (Ty::Bool, Ty::Bool) | (Ty::Int, Ty::Int) | (Ty::Uint, Ty::Uint) | (Ty::Other, Ty::Other) => true,
        (Ty::Adt { path: p, args: x, .. }, Ty::Adt { path: q, args: y, .. }) => p@ == q@ && x@.len() == y@.len()
            && forall|k: int| 0 <= k < x@.len() ==> same_tys_spec(#[trigger] x@[k], y@[k]),
        (Ty::Ref(x), Ty::Ref(y)) => same_tys_spec(*x, *y),
        (Ty::Array(x, n), Ty::Array(y, m)) => n == m && same_tys_spec(*x, *y),
        (Ty::Slice(x), Ty::Slice(y)) => same_tys_spec(*x, *y),
        (Ty::FnDef { is_unsafe: u }, Ty::FnDef { is_unsafe: v }) => u == v,
        (Ty::FnPtr { is_unsafe: u }, Ty::FnPtr { is_unsafe: v }) => u == v,
        _ => false,
    }
}

fn same_args(x: &Vec<Ty>, y: &Vec<Ty>) -> (r: bool)
    ensures
        r == (x@.len() == y@.len() && forall|k: int|
            0 <= k < x@.len() ==> same_tys_spec(#[trigger] x@[k], y@[k])),
    decreases *x, 0int,
{
    if x.len() != y.len() {
        return false;
    }
    let n = x.len();
    let mut k: usize = 0;
    while k < n
        invariant
            k <= n == x.len(),
            n == y.len(),
            forall|i: int| 0 <= i < k ==> same_tys_spec(#[trigger] x@[i], y@[i]),
        decreases n - k,
    {
        proof {
            vstd::std_specs::vec::axiom_vec_index_decreases(*x, k as int);
        }
        if !same_tys(&x[k], &y[k]) {
            return false;
        }
        k += 1;
    }
    true
}

/// Check if two types are the same.
pub fn same_tys(a: &Ty, b: &Ty) -> (r: bool)
    ensures
        r == same_tys_spec(*a, *b),
    decreases *a, 1int,
{
    match (a, b) {
        (Ty::Bool, Ty::Bool) => true,
        (Ty::Int, Ty::Int) => true,
        (Ty::Uint, Ty::Uint) => true,
        (Ty::Other, Ty::Other) => true,
        (Ty::Adt { path: p, args: x, .. }, Ty::Adt { path: q, args: y, .. }) => text_eq(p.as_str(), q.as_str())
            && same_args(x, y),
        (Ty::Ref(x), Ty::Ref(y)) => same_tys(&**x, &**y),
        (Ty::Array(x, n), Ty::Array(y, m)) => *n == *m && same_tys(&**x, &**y),
        (Ty::Slice(x), Ty::Slice(y)) => same_tys(&**x, &**y),
        (Ty::FnDef { is_unsafe: u }, Ty::FnDef { is_unsafe: v }) => *u == *v,
        (Ty::FnPtr { is_unsafe: u }, Ty::FnPtr { is_unsafe: v }) => *u == *v,
        _ => false,
    }
}

} // verus!
