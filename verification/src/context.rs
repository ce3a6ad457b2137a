//! What a run of the detectors has at hand beside the tree.

use vstd::prelude::*;
use crate::diagnostics::Levels;
use crate::scope::ScopeTree;
use crate::source::SourceMap;

verus! {

/// The source text, the extents and the lint levels of one run. None of
/// them changes while the detectors run.
#[derive(Debug, PartialEq, Eq)]
pub struct LateContext {
    pub source: SourceMap,
    pub scopes: ScopeTree,
    pub levels: Levels,
}

} // verus!
