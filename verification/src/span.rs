//! Source positions.

use vstd::prelude::*;

verus! {

/// Expansion id of a span that no macro produced.
pub const NO_EXPANSION: u32 = 0xffff_ffff;

/// A region of the source text: the characters from `lo` up to, not
/// including, `hi`, together with the macro expansion it came from.
#[derive(Clone, Copy, Debug, PartialEq, Eq, Structural)]
pub struct Span {
    pub lo: usize,
    pub hi: usize,
    pub expn_id: u32,
}

impl Span {
    /// A span that no macro produced.
    pub fn new(lo: usize, hi: usize) -> (s: Span)
        ensures
            s == (Span { lo, hi, expn_id: NO_EXPANSION }),
    {
        Span { lo, hi, expn_id: NO_EXPANSION }
    }

    /// The span from the start of `self` to the end of `last`, in the
    /// expansion of `self`.
    pub fn to(self, last: Span) -> (s: Span)
        ensures
            s == (Span { lo: self.lo, hi: last.hi, expn_id: self.expn_id }),
    {
        Span { lo: self.lo, hi: last.hi, expn_id: self.expn_id }
    }
}

/// Returns true if the two spans come from differing expansions (one is
/// from a macro and the other is not, or they are from different macros).
pub fn differing_macro_contexts(lhs: Span, rhs: Span) -> (r: bool)
    ensures
        r == (rhs.expn_id != lhs.expn_id),
{
    rhs.expn_id != lhs.expn_id
}

} // verus!
