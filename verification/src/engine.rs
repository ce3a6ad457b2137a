//! The engine: one walk over the tree that hands each node to the
//! detectors for its kind, in a fixed order, and gathers what they report.

use vstd::prelude::*;
use crate::attrs::{attribute_findings, item_findings, AttrPass};
use crate::context::LateContext;
use crate::diagnostics::{views, Defect, Diagnostic, DiagnosticView};
use crate::loops;
use crate::node::{Attribute, NodeKind};
use crate::options;
use crate::tree::{last_of, walk, walk_spec, Slot, Tree, Visitor};

verus! {

/// What a single `#[deprecated]` check reports for the attributes
/// `attrs[k..]`, in order.
pub open spec fn attributes_findings(attrs: Seq<Attribute>, k: int) -> Seq<DiagnosticView>
    decreases attrs.len() - k,
{
    if k < 0 || k >= attrs.len() {
        Seq::empty()
    } else {
        attribute_findings(attrs[k]) + attributes_findings(attrs, k + 1)
    }
}

/// The detectors that the engine knows.
#[derive(Clone, Copy, Debug, PartialEq, Eq, Structural)]
pub enum Detector {
    /// The detectors on loops, for expressions.
    Loops,
    /// The detectors on `match` expressions.
    Matches,
    /// The check for useless uses of `vec!`.
    UselessVec,
    /// The check for `and_then` that could be `map`.
    AndThenSome,
    /// The detector for iterators that are collected for nothing.
    UnusedCollect,
    /// The check of the `since` fields of `#[deprecated]`.
    Deprecated,
    /// The checks for `#[inline(always)]` and for lint attributes on
    /// imports.
    ItemAttributes,
}

/// The registry: for each kind of node the detectors that are run on it,
/// in the order in which they run.
pub open spec fn registry(kind: NodeKind) -> Seq<Detector> {
    match kind {
        NodeKind::Expr { .. } => seq![
            Detector::Loops,
            Detector::Matches,
            Detector::UselessVec,
            Detector::AndThenSome,
        ],
        NodeKind::Stmt(_) => seq![Detector::UnusedCollect],
        NodeKind::Item { .. } => seq![Detector::Deprecated, Detector::ItemAttributes],
        _ => Seq::empty(),
    }
}

/// The detectors for a node of the given kind, in the order in which they
/// run.
pub fn detectors_for(kind: &NodeKind) -> (r: Vec<Detector>)
    ensures
        r@ == registry(*kind),
{
    match kind {
        NodeKind::Expr { .. } => vec![
            Detector::Loops,
            Detector::Matches,
            Detector::UselessVec,
            Detector::AndThenSome,
        ],
        NodeKind::Stmt(_) => vec![Detector::UnusedCollect],
        NodeKind::Item { .. } => vec![Detector::Deprecated, Detector::ItemAttributes],
        _ => Vec::new(),
    }
}

/// What the detector `d` reports for the node at `at`.
pub open spec fn detector_findings(d: Detector, cx: LateContext, s: Seq<Slot>, at: int) -> Seq<DiagnosticView> {
    match d {
        Detector::Loops => loops::expr_findings(cx, s, at),
        Detector::Matches => crate::matches::expr_findings(cx, s, at),
        Detector::UselessVec => crate::vec::expr_findings(cx.source, s, at),
        Detector::AndThenSome => options::expr_findings(s, at),
        Detector::UnusedCollect => loops::stmt_findings(s, at),
        Detector::Deprecated => match s[at].node.kind {
            NodeKind::Item { attrs, .. } => attributes_findings(attrs@, 0),
            _ => Seq::empty(),
        },
        Detector::ItemAttributes => item_findings(cx.source, s, at),
    }
}

/// The defect that the detector `d` meets at the node at `at`.
pub open spec fn detector_defect(d: Detector, cx: LateContext, s: Seq<Slot>, at: int) -> Option<Defect> {
    match d {
        Detector::Loops => loops::while_let_defect(s, at),
        Detector::Matches => crate::matches::expr_defect(cx, s, at),
        _ => None,
    }
}

/// What the detectors `ds[k..]` report for the node at `at`, in order.
pub open spec fn findings_of(ds: Seq<Detector>, cx: LateContext, s: Seq<Slot>, at: int, k: int) -> Seq<
    DiagnosticView,
>
    decreases ds.len() - k,
{
    if k < 0 || k >= ds.len() {
        Seq::empty()
    } else {
        detector_findings(ds[k], cx, s, at) + findings_of(ds, cx, s, at, k + 1)
    }
}

/// The defects that the detectors `ds[k..]` meet at the node at `at`, in
/// order, each with the node's position.
pub open spec fn defects_of(ds: Seq<Detector>, cx: LateContext, s: Seq<Slot>, at: int, k: int) -> Seq<
    (usize, Defect),
>
    decreases ds.len() - k,
{
    if k < 0 || k >= ds.len() {
        Seq::empty()
    } else {
        (match detector_defect(ds[k], cx, s, at) {
            Some(d) => seq![(at as usize, d)],
            None => Seq::empty(),
        }) + defects_of(ds, cx, s, at, k + 1)
    }
}

/// What the detectors report for the node at `at`: what each detector
/// that the registry names for the node's kind reports, in the order of
/// the registry.
pub open spec fn node_findings(cx: LateContext, s: Seq<Slot>, at: int) -> Seq<DiagnosticView> {
    findings_of(registry(s[at].node.kind), cx, s, at, 0)
}

/// The defects that the detectors meet at the node at `at`.
pub open spec fn node_defects(cx: LateContext, s: Seq<Slot>, at: int) -> Seq<(usize, Defect)> {
    defects_of(registry(s[at].node.kind), cx, s, at, 0)
}

/// The findings for the nodes at the positions `at..end`, in that order.
pub open spec fn findings_between(cx: LateContext, s: Seq<Slot>, at: int, end: int) -> Seq<DiagnosticView>
    decreases end - at,
{
    if at >= end {
        Seq::empty()
    } else {
        node_findings(cx, s, at) + findings_between(cx, s, at + 1, end)
    }
}

/// The defects for the nodes at the positions `at..end`, in that order.
pub open spec fn defects_between(cx: LateContext, s: Seq<Slot>, at: int, end: int) -> Seq<(usize, Defect)>
    decreases end - at,
{
    if at >= end {
        Seq::empty()
    } else {
        node_defects(cx, s, at) + defects_between(cx, s, at + 1, end)
    }
}

/// The findings of a run over the whole tree: those for each node, the
/// nodes taken depth-first in pre-order.
pub open spec fn tree_findings(cx: LateContext, s: Seq<Slot>) -> Seq<DiagnosticView> {
    findings_between(cx, s, 0, s.len() as int)
}

/// The defects that a run over the whole tree meets, each with the
/// position of the node at which a detector gave up.
pub open spec fn tree_defects(cx: LateContext, s: Seq<Slot>) -> Seq<(usize, Defect)> {
    defects_between(cx, s, 0, s.len() as int)
}

/// What a run reports.
#[derive(Debug, PartialEq, Eq)]
pub struct Report {
    pub diagnostics: Vec<Diagnostic>,
    pub defects: Vec<(usize, Defect)>,
}

/// Whether `r` is what a run over the tree `s` in the context `cx`
/// reports.
pub open spec fn is_report_of(r: Report, cx: LateContext, s: Seq<Slot>) -> bool {
    &&& views(r.diagnostics@) == tree_findings(cx, s)
    &&& r.defects@ == tree_defects(cx, s)
}

/// The state of a run.
pub struct Engine<'a> {
    pub cx: &'a LateContext,
    pub diagnostics: Vec<Diagnostic>,
    pub defects: Vec<(usize, Defect)>,
}

pub struct EngineModel {
    pub cx: LateContext,
    pub findings: Seq<DiagnosticView>,
    pub defects: Seq<(usize, Defect)>,
}

impl<'a> Engine<'a> {
    fn check_attributes(&mut self, attrs: &Vec<Attribute>)
        ensures
            final(self).cx == old(self).cx,
            final(self).defects == old(self).defects,
            views(final(self).diagnostics@) == views(old(self).diagnostics@) + attributes_findings(attrs@, 0),
    {
        let ghost before = views(self.diagnostics@);
        let mut pass = AttrPass;
        let n = attrs.len();
        let mut k: usize = 0;
        let ghost mut done = Seq::<DiagnosticView>::empty();
        assert(before + done =~= before);
        assert(done + attributes_findings(attrs@, 0) =~= attributes_findings(attrs@, 0));
        while k < n
            invariant
                k <= n == attrs.len(),
                self.cx == old(self).cx,
                self.defects == old(self).defects,
                views(self.diagnostics@) == before + done,
                done + attributes_findings(attrs@, k as int) == attributes_findings(attrs@, 0),
            decreases n - k,
        {
            let ghost here = attribute_findings(attrs[k as int]);
            let ghost rest = attributes_findings(attrs@, k + 1);
            assert(done + (here + rest) =~= (done + here) + rest);
            assert(before + (done + here) =~= (before + done) + here);
            pass.check_attribute(&attrs[k], &mut self.diagnostics);
            proof {
                done = done + here;
            }
            k += 1;
        }
        assert(done + Seq::<DiagnosticView>::empty() =~= done);
    }
}

impl<'a> Engine<'a> {
    /// Runs one detector on the node at `at`.
    fn run(&mut self, d: Detector, tree: &Tree, at: usize)
        requires
            at < tree@.len(),
        ensures
            final(self).cx == old(self).cx,
            views(final(self).diagnostics@) == views(old(self).diagnostics@) + detector_findings(
                d,
                *old(self).cx,
                tree@,
                at as int,
            ),
            final(self).defects@ == old(self).defects@ + (match detector_defect(
                d,
                *old(self).cx,
                tree@,
                at as int,
            ) {
                Some(defect) => seq![(at, defect)],
                None => Seq::empty(),
            }),
    {
        let cx = self.cx;
        let ghost faults = self.defects@;
        let outcome = match d {
            Detector::Loops => loops::Pass.check_expr(cx, tree, at, &mut self.diagnostics),
            Detector::Matches => crate::matches::MatchPass.check_expr(cx, tree, at, &mut self.diagnostics),
            Detector::UselessVec => {
                crate::vec::Pass.check_expr(&cx.source, tree, at, &mut self.diagnostics);
                Ok(())
            },
            Detector::AndThenSome => {
                options::Options.check_expr(tree, at, &mut self.diagnostics);
                Ok(())
            },
            Detector::UnusedCollect => {
                loops::Pass.check_stmt(tree, at, &mut self.diagnostics);
                Ok(())
            },
            Detector::Deprecated => {
                match &tree.node(at).kind {
                    NodeKind::Item { attrs, .. } => {
                        self.check_attributes(attrs);
                    },
                    _ => {
                        assert(views(self.diagnostics@) + Seq::<DiagnosticView>::empty() =~= views(
                            self.diagnostics@,
                        ));
                    },
                }
                Ok(())
            },
            Detector::ItemAttributes => {
                AttrPass.check_item(&cx.source, tree, at, &mut self.diagnostics);
                Ok(())
            },
        };
        match outcome {
            Err(defect) => {
                self.defects.push((at, defect));
                assert(self.defects@ =~= faults + seq![(at, defect)]);
            },
            Ok(()) => {
                assert(faults + Seq::<(usize, Defect)>::empty() =~= faults);
            },
        }
    }
}

impl<'a> Visitor for Engine<'a> {
    type Model = EngineModel;

    open spec fn model(&self) -> EngineModel {
        EngineModel { cx: *self.cx, findings: views(self.diagnostics@), defects: self.defects@ }
    }

    /// Every node adds what the detectors report for it, and the walk goes
    /// into every subtree.
    open spec fn visit_spec(m: EngineModel, s: Seq<Slot>, at: int) -> (EngineModel, bool) {
        (
            EngineModel {
                findings: m.findings + node_findings(m.cx, s, at),
                defects: m.defects + node_defects(m.cx, s, at),
                ..m
            },
            true,
        )
    }

    fn visit(&mut self, tree: &Tree, at: usize) -> (descend: bool) {
        let ghost before = views(self.diagnostics@);
        let ghost faults = self.defects@;
        let ghost cx = *self.cx;
        let detectors = detectors_for(&tree.node(at).kind);
        let ghost ds = detectors@;
        let n = detectors.len();
        let mut k: usize = 0;
        let ghost mut found = Seq::<DiagnosticView>::empty();
        let ghost mut met = Seq::<(usize, Defect)>::empty();
        assert(before + found =~= before);
        assert(faults + met =~= faults);
        assert(found + findings_of(ds, cx, tree@, at as int, 0) =~= findings_of(ds, cx, tree@, at as int, 0));
        assert(met + defects_of(ds, cx, tree@, at as int, 0) =~= defects_of(ds, cx, tree@, at as int, 0));
        while k < n
            invariant
                k <= n == detectors.len(),
                ds == detectors@,
                at < tree@.len(),
                *self.cx == cx,
                views(self.diagnostics@) == before + found,
                self.defects@ == faults + met,
                found + findings_of(ds, cx, tree@, at as int, k as int) == findings_of(
                    ds,
                    cx,
                    tree@,
                    at as int,
                    0,
                ),
                met + defects_of(ds, cx, tree@, at as int, k as int) == defects_of(ds, cx, tree@, at as int, 0),
            decreases n - k,
        {
            let d = detectors[k];
            let ghost here = detector_findings(d, cx, tree@, at as int);
            let ghost fault = match detector_defect(d, cx, tree@, at as int) {
                Some(defect) => seq![(at, defect)],
                None => Seq::empty(),
            };
            let ghost rest = findings_of(ds, cx, tree@, at as int, k + 1);
            let ghost rest_met = defects_of(ds, cx, tree@, at as int, k + 1);
            assert(found + (here + rest) =~= (found + here) + rest);
            assert(met + (fault + rest_met) =~= (met + fault) + rest_met);
            assert(before + (found + here) =~= (before + found) + here);
            assert(faults + (met + fault) =~= (faults + met) + fault);
            self.run(d, tree, at);
            proof {
                found = found + here;
                met = met + fault;
            }
            k += 1;
        }
        assert(found + Seq::<DiagnosticView>::empty() =~= found);
        assert(met + Seq::<(usize, Defect)>::empty() =~= met);
        true
    }
}

proof fn lemma_walk_visits_all(m: EngineModel, s: Seq<Slot>, at: int, last: int)
    requires
        0 <= at <= last < s.len(),
    ensures
        walk_spec::<Engine>(m, s, at, last) == (EngineModel {
            findings: m.findings + findings_between(m.cx, s, at, last + 1),
            defects: m.defects + defects_between(m.cx, s, at, last + 1),
            ..m
        }),
    decreases last - at,
{
    let (m2, _) = Engine::visit_spec(m, s, at);
    if at < last {
        lemma_walk_visits_all(m2, s, at + 1, last);
        assert((m.findings + node_findings(m.cx, s, at)) + findings_between(m.cx, s, at + 1, last + 1)
            =~= m.findings + findings_between(m.cx, s, at, last + 1));
        assert((m.defects + node_defects(m.cx, s, at)) + defects_between(m.cx, s, at + 1, last + 1)
            =~= m.defects + defects_between(m.cx, s, at, last + 1));
    } else {
        assert(findings_between(m.cx, s, at + 1, last + 1) =~= Seq::empty());
        assert(defects_between(m.cx, s, at + 1, last + 1) =~= Seq::empty());
        assert(m.findings + node_findings(m.cx, s, at) =~= m.findings + findings_between(
            m.cx,
            s,
            at,
            last + 1,
        ));
        assert(m.defects + node_defects(m.cx, s, at) =~= m.defects + defects_between(m.cx, s, at, last + 1));
    }
}

/// Runs all detectors over the tree and returns what they report, in the
/// order in which the walk meets the nodes.
pub fn lint_tree(cx: &LateContext, tree: &Tree) -> (r: Report)
    ensures
        is_report_of(r, *cx, tree@),
{
    let n = tree.len();
    let mut engine = Engine { cx, diagnostics: Vec::new(), defects: Vec::new() };
    let ghost start = engine.model();
    assert(start.findings =~= Seq::empty());
    walk(&mut engine, tree, 0);
    proof {
        lemma_walk_visits_all(start, tree@, 0, last_of(tree@, 0));
        assert(start.findings + tree_findings(*cx, tree@) =~= tree_findings(*cx, tree@));
        assert(start.defects + tree_defects(*cx, tree@) =~= tree_defects(*cx, tree@));
    }
    Report { diagnostics: engine.diagnostics, defects: engine.defects }
}

/// Two runs over the same tree in the same context report the same
/// findings and the same defects: a run depends on nothing but the tree
/// and the context, and leaves nothing behind for the next.
pub proof fn lemma_runs_agree(cx: LateContext, s: Seq<Slot>, first: Report, second: Report)
    requires
        is_report_of(first, cx, s),
        is_report_of(second, cx, s),
    ensures
        views(first.diagnostics@) == views(second.diagnostics@),
        views(first.diagnostics@).to_multiset() == views(second.diagnostics@).to_multiset(),
        first.defects@ == second.defects@,
{
}

} // verus!
