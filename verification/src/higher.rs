//! The shapes of loops, ranges and `vec!` expansions, read off the tree.

use vstd::prelude::*;
use crate::node::{ExprKind, RangeLimits, VecArgs};
use crate::query::{expr_kind, expr_kind_of};
use crate::tree::{children_of, Slot, Tree};

verus! {

/// A range literal: the positions of its bounds, as far as it has them.
#[derive(Clone, Copy, Debug, PartialEq, Eq, Structural)]
pub struct Range {
    pub start: Option<usize>,
    pub end: Option<usize>,
    pub limits: RangeLimits,
}

/// A `for` loop: the positions of its pattern, of the expression it
/// iterates and of its body.
#[derive(Clone, Copy, Debug, PartialEq, Eq, Structural)]
pub struct ForLoop {
    pub pat: usize,
    pub arg: usize,
    pub body: usize,
}

/// The range literal at `at`. A range node whose children do not agree
/// with the bounds it declares is no range.
pub open spec fn range_of(s: Seq<Slot>, at: int) -> Option<Range> {
    match expr_kind_of(s, at) {
        Some(ExprKind::Range { limits, has_start, has_end }) => {
            let kids = children_of(s, at);
            let want: int = if has_start && has_end {
                2
            } else if has_start || has_end {
                1
            } else {
                0
            };
            if kids.len() != want {
                None
            } else {
                Some(
                    Range {
                        start: if has_start {
                            Some(kids[0] as usize)
                        } else {
                            None
                        },
                        end: if has_end {
                            Some(kids[want - 1] as usize)
                        } else {
                            None
                        },
                        limits,
                    },
                )
            }
        },
        _ => None,
    }
}

/// The `for` loop at `at`: a loop node with exactly a pattern, an iterated
/// expression and a body.
pub open spec fn for_loop_of(s: Seq<Slot>, at: int) -> Option<ForLoop> {
    match expr_kind_of(s, at) {
        Some(ExprKind::ForLoop) => {
            let kids = children_of(s, at);
            if kids.len() == 3 {
                Some(ForLoop { pat: kids[0] as usize, arg: kids[1] as usize, body: kids[2] as usize })
            } else {
                None
            }
        },
        _ => None,
    }
}

/// The form of the `vec!` expansion at `at`. The repeat form has exactly
/// an element and a length.
pub open spec fn vec_macro_of(s: Seq<Slot>, at: int) -> Option<VecArgs> {
    match expr_kind_of(s, at) {
        Some(ExprKind::VecMacro(VecArgs::Vec)) => Some(VecArgs::Vec),
        Some(ExprKind::VecMacro(VecArgs::Repeat)) => if children_of(s, at).len() == 2 {
            Some(VecArgs::Repeat)
        } else {
            None
        },
        _ => None,
    }
}

/// Recognises a range literal.
pub fn range(tree: &Tree, at: usize) -> (r: Option<Range>)
    requires
        at < tree@.len(),
    ensures
        r == range_of(tree@, at as int),
        r.is_some() ==> (r.unwrap().start.is_some() ==> r.unwrap().start.unwrap() < tree@.len()) && (
        r.unwrap().end.is_some() ==> r.unwrap().end.unwrap() < tree@.len()),
{
    match expr_kind(tree, at) {
        Some(ExprKind::Range { limits, has_start, has_end }) => {
            let kids = tree.children(at);
            let want: usize = if *has_start && *has_end {
                2
            } else if *has_start || *has_end {
                1
            } else {
                0
            };
            if kids.len() != want {
                None
            } else {
                Some(
                    Range {
                        start: if *has_start {
                            Some(kids[0])
                        } else {
                            None
                        },
                        end: if *has_end {
                            Some(kids[want - 1])
                        } else {
                            None
                        },
                        limits: *limits,
                    },
                )
            }
        },
        _ => None,
    }
}

/// Recognises a `for` loop.
pub fn for_loop(tree: &Tree, at: usize) -> (r: Option<ForLoop>)
    requires
        at < tree@.len(),
    ensures
        r == for_loop_of(tree@, at as int),
        r.is_some() ==> r.unwrap().pat < tree@.len() && r.unwrap().arg < tree@.len() && r.unwrap().body
            < tree@.len(),
{
    match expr_kind(tree, at) {
        Some(ExprKind::ForLoop) => {
            let kids = tree.children(at);
            if kids.len() == 3 {
                Some(ForLoop { pat: kids[0], arg: kids[1], body: kids[2] })
            } else {
                None
            }
        },
        _ => None,
    }
}

/// Recognises an expansion of `vec!`.
pub fn vec_macro(tree: &Tree, at: usize) -> (r: Option<VecArgs>)
    requires
        at < tree@.len(),
    ensures
        r == vec_macro_of(tree@, at as int),
{
    match expr_kind(tree, at) {
        Some(ExprKind::VecMacro(VecArgs::Vec)) => Some(VecArgs::Vec),
        Some(ExprKind::VecMacro(VecArgs::Repeat)) => {
            let kids = tree.children(at);
            if kids.len() == 2 {
                Some(VecArgs::Repeat)
            } else {
                None
            }
        },
        _ => None,
    }
}

} // verus!
