//! What a detector reports: the lint that fired, where, the message, and
//! the help, notes and suggested replacements that go with it.

use vstd::prelude::*;
use crate::span::Span;

verus! {

/// The lints, one tag for each.
#[derive(Clone, Copy, Debug, PartialEq, Eq, Structural)]
pub enum Lint {
    NeedlessRangeLoop,
    ExplicitIterLoop,
    IterNextLoop,
    ForLoopOverOption,
    ForLoopOverResult,
    WhileLetLoop,
    UnusedCollect,
    ReverseRangeLoop,
    ExplicitCounterLoop,
    EmptyLoop,
    WhileLetOnIterator,
    ForKvMap,
    SingleMatch,
    SingleMatchElse,
    MatchRefPats,
    MatchBool,
    MatchOverlappingArm,
    InlineAlways,
    UselessAttribute,
    DeprecatedSemver,
    UselessVec,
    OptionAndThenSome,
}

/// A construct that the tree's provider guarantees to have one shape was
/// found with another. The detector that met it gave up on that node.
#[derive(Clone, Copy, Debug, PartialEq, Eq, Structural)]
pub enum Defect {
    /// The `match` that a `while let` stands for does not have two arms
    /// with a pattern in the first.
    MalformedWhileLet,
    /// The `match` that a `for` loop stands for has only `&` patterns.
    ForLoopWithRefPatterns,
    /// The `match` that a `?` stands for has only `&` patterns.
    TryWithRefPatterns,
}

#[derive(Clone, Copy, Debug, PartialEq, Eq, Structural)]
pub enum Level {
    Allow,
    Warn,
    Deny,
    Forbid,
}

/// The level a lint has where nothing sets another.
pub open spec fn default_level(lint: Lint) -> Level {
    if lint == Lint::SingleMatchElse {
        Level::Allow
    } else {
        Level::Warn
    }
}

/// The level of `lint` under the given settings: the last setting for it
/// wins, and without one the lint has its default level.
pub open spec fn level_of(settings: Seq<(Lint, Level)>, lint: Lint) -> Level
    decreases settings.len(),
{
    if settings.len() == 0 {
        default_level(lint)
    } else if settings.last().0 == lint {
        settings.last().1
    } else {
        level_of(settings.drop_last(), lint)
    }
}

/// The lint levels of one run, fixed before the traversal starts.
#[derive(Debug, PartialEq, Eq)]
pub struct Levels {
    pub settings: Vec<(Lint, Level)>,
}

impl Levels {
    /// The level that `lint` has in this run.
    pub fn current_level(&self, lint: Lint) -> (l: Level)
        ensures
            l == level_of(self.settings@, lint),
    {
        let mut i = self.settings.len();
        assert(self.settings@.take(i as int) =~= self.settings@);
        while i > 0
            invariant
                i <= self.settings.len(),
                level_of(self.settings@.take(i as int), lint) == level_of(self.settings@, lint),
            decreases i,
        {
            i -= 1;
            if self.settings[i].0 == lint {
                return self.settings[i].1;
            }
            assert(self.settings@.take(i + 1).drop_last() =~= self.settings@.take(i as int));
        }
        if lint == Lint::SingleMatchElse {
            Level::Allow
        } else {
            Level::Warn
        }
    }
}

#[derive(Clone, Copy, Debug, PartialEq, Eq, Structural)]
pub enum SubLevel {
    Help,
    Note,
}

/// A suggested rewrite of one span.
#[derive(Debug, PartialEq, Eq)]
pub struct Replacement {
    pub span: Span,
    pub text: String,
}

pub struct ReplacementView {
    pub span: Span,
    pub text: Seq<char>,
}

impl View for Replacement {
    type V = ReplacementView;

    open spec fn view(&self) -> ReplacementView {
        ReplacementView { span: self.span, text: self.text@ }
    }
}

/// A help or a note attached to a diagnostic, with the span it points at
/// if it has one, and the replacements it suggests if it is a suggestion.
#[derive(Debug, PartialEq, Eq)]
pub struct SubDiagnostic {
    pub level: SubLevel,
    pub message: String,
    pub span: Option<Span>,
    pub replacements: Vec<Replacement>,
}

pub struct SubDiagnosticView {
    pub level: SubLevel,
    pub message: Seq<char>,
    pub span: Option<Span>,
    pub replacements: Seq<ReplacementView>,
}

impl View for SubDiagnostic {
    type V = SubDiagnosticView;

    open spec fn view(&self) -> SubDiagnosticView {
        SubDiagnosticView {
            level: self.level,
            message: self.message@,
            span: self.span,
            replacements: self.replacements@.map_values(|r: Replacement| r@),
        }
    }
}

/// One finding.
#[derive(Debug, PartialEq, Eq)]
pub struct Diagnostic {
    pub lint: Lint,
    pub span: Span,
    pub message: String,
    pub children: Vec<SubDiagnostic>,
}

pub struct DiagnosticView {
    pub lint: Lint,
    pub span: Span,
    pub message: Seq<char>,
    pub children: Seq<SubDiagnosticView>,
}

impl View for Diagnostic {
    type V = DiagnosticView;

    open spec fn view(&self) -> DiagnosticView {
        DiagnosticView {
            lint: self.lint,
            span: self.span,
            message: self.message@,
            children: self.children@.map_values(|c: SubDiagnostic| c@),
        }
    }
}

/// The finding with nothing attached.
pub open spec fn plain(lint: Lint, span: Span, message: Seq<char>) -> DiagnosticView {
    DiagnosticView { lint, span, message, children: Seq::empty() }
}

/// A help without span or replacement.
pub open spec fn help_of(message: Seq<char>) -> SubDiagnosticView {
    SubDiagnosticView { level: SubLevel::Help, message, span: None, replacements: Seq::empty() }
}

/// A note, pointing at `span` if there is one.
pub open spec fn note_of(span: Option<Span>, message: Seq<char>) -> SubDiagnosticView {
    SubDiagnosticView { level: SubLevel::Note, message, span, replacements: Seq::empty() }
}

/// The suggestion to replace `span` by `text`.
pub open spec fn suggestion_of(span: Span, message: Seq<char>, text: Seq<char>) -> SubDiagnosticView {
    SubDiagnosticView {
        level: SubLevel::Help,
        message,
        span: Some(span),
        replacements: seq![ReplacementView { span, text }],
    }
}

/// The suggestion to replace two spans at once.
pub open spec fn suggestion2_of(
    message: Seq<char>,
    first: ReplacementView,
    second: ReplacementView,
) -> SubDiagnosticView {
    SubDiagnosticView { level: SubLevel::Help, message, span: None, replacements: seq![first, second] }
}

/// `d` with `child` attached after what it already holds.
pub open spec fn with_child(d: DiagnosticView, child: SubDiagnosticView) -> DiagnosticView {
    DiagnosticView { children: d.children.push(child), ..d }
}

/// A finding of `lint` at `sp`.
pub fn span_lint(lint: Lint, sp: Span, msg: String) -> (d: Diagnostic)
    ensures
        d@ == plain(lint, sp, msg@),
{
    let d = Diagnostic { lint, span: sp, message: msg, children: Vec::new() };
    assert(d@.children =~= Seq::empty());
    d
}

/// Attaches `child` to the finding.
pub fn attach(d: Diagnostic, child: SubDiagnostic) -> (r: Diagnostic)
    ensures
        r@ == with_child(d@, child@),
{
    let Diagnostic { lint, span, message, children } = d;
    let mut children = children;
    let ghost before = children@;
    children.push(child);
    let r = Diagnostic { lint, span, message, children };
    assert(r@.children =~= before.map_values(|c: SubDiagnostic| c@).push(child@));
    r
}

/// A finding with a help message.
pub fn span_help_and_lint(lint: Lint, span: Span, msg: String, help: String) -> (d: Diagnostic)
    ensures
        d@ == with_child(plain(lint, span, msg@), help_of(help@)),
{
    let sub = SubDiagnostic { level: SubLevel::Help, message: help, span: None, replacements: Vec::new() };
    assert(sub@.replacements =~= Seq::empty());
    attach(span_lint(lint, span, msg), sub)
}

/// A finding with a note, which points at `note_span` unless that is the
/// finding's own span.
pub fn span_note_and_lint(lint: Lint, span: Span, msg: String, note_span: Span, note: String) -> (d:
    Diagnostic)
    ensures
        d@ == with_child(
            plain(lint, span, msg@),
            note_of(
                if note_span == span {
                    None
                } else {
                    Some(note_span)
                },
                note@,
            ),
        ),
{
    let at = if note_span == span {
        None
    } else {
        Some(note_span)
    };
    let sub = SubDiagnostic { level: SubLevel::Note, message: note, span: at, replacements: Vec::new() };
    assert(sub@.replacements =~= Seq::empty());
    attach(span_lint(lint, span, msg), sub)
}

/// The suggestion to replace `span` by `sugg`, under the message `msg`.
pub fn span_suggestion(span: Span, msg: String, sugg: String) -> (s: SubDiagnostic)
    ensures
        s@ == suggestion_of(span, msg@, sugg@),
{
    let mut replacements: Vec<Replacement> = Vec::new();
    replacements.push(Replacement { span, text: sugg });
    let s = SubDiagnostic { level: SubLevel::Help, message: msg, span: Some(span), replacements };
    assert(s@.replacements =~= seq![ReplacementView { span, text: sugg@ }]);
    s
}

/// Create a suggestion made from two `span → replacement` pairs.
pub fn multispan_sugg(help_msg: String, first: Replacement, second: Replacement) -> (s: SubDiagnostic)
    ensures
        s@ == suggestion2_of(help_msg@, first@, second@),
{
    let mut replacements: Vec<Replacement> = Vec::new();
    replacements.push(first);
    replacements.push(second);
    let s = SubDiagnostic { level: SubLevel::Help, message: help_msg, span: None, replacements };
    assert(s@.replacements =~= seq![first@, second@]);
    s
}

/// A finding of `lint` at `sp` with one suggestion or note attached.
pub fn span_lint_and_then(lint: Lint, sp: Span, msg: String, then: SubDiagnostic) -> (d: Diagnostic)
    ensures
        d@ == with_child(plain(lint, sp, msg@), then@),
{
    attach(span_lint(lint, sp, msg), then)
}

/// The views of the findings in `ds`, in order.
pub open spec fn views(ds: Seq<Diagnostic>) -> Seq<DiagnosticView> {
    ds.map_values(|d: Diagnostic| d@)
}

/// Hands a finding to the sink.
pub fn emit(out: &mut Vec<Diagnostic>, d: Diagnostic)
    ensures
        views(final(out)@) == views(old(out)@).push(d@),
        views(final(out)@) == views(old(out)@) + seq![d@],
{
    out.push(d);
    assert(views(out@) =~= views(old(out)@).push(d@));
    assert(views(old(out)@).push(d@) =~= views(old(out)@) + seq![d@]);
}

} // verus!
