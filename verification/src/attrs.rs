//! Checks for attributes: `#[inline(always)]`, lint attributes on imports,
//! and `#[deprecated]` with a `since` that is no version.

use vstd::prelude::*;
use vstd::string::*;
use crate::diagnostics::{
    emit, plain, span_lint, span_lint_and_then, span_suggestion, suggestion_of, views, with_child,
    Diagnostic, DiagnosticView, Lint,
};
use crate::node::{
    Attribute, ExprKind, ItemKind, Lit, MetaItem, MetaItemKind, NestedMetaItem, NestedMetaItemKind, NodeKind,
    StmtKind,
};
use crate::query::{block_parts, block_stmts, block_tail, expr_kind, expr_kind_of, only_child};
use crate::source::{in_macro, expn_info, snippet_of, snippet_opt, SourceMap};
use crate::span::Span;
use crate::text::{text_eq, texts};
use crate::tree::{children_of, Slot, Tree};

verus! {

/// Whether the text is a version under the rules of semantic versioning,
/// as `semver::Version::parse` decides it.
pub uninterp spec fn semver_parses(text: Seq<char>) -> bool;

/// Asks `semver::Version::parse` whether `text` is a version. The result
/// is `true` exactly when the parser returns a version for the text, and
/// depends on nothing but the text.
#[verifier::external_body]
fn is_semver(text: &str) -> (r: bool)
    ensures
        r == semver_parses(text@),
{
    semver::Version::parse(text).is_ok()
}

pub const MSG_SEMVER: &'static str = "the since field must contain a semver-compliant version";

pub const MSG_USELESS_ATTRIBUTE: &'static str = "useless lint attribute";

pub const HELP_FORGOT_BANG: &'static str = "if you just forgot a `!`, use";

/// What the check of a `since` field reports once it is known whether the
/// field holds a version: a finding at `span` if it does not.
pub open spec fn semver_verdict(span: Span, valid: bool) -> Seq<DiagnosticView> {
    if valid {
        Seq::empty()
    } else {
        seq![plain(Lint::DeprecatedSemver, span, MSG_SEMVER@)]
    }
}

/// Whether the literal is a string that holds a version.
pub open spec fn is_version(lit: Lit) -> bool {
    match lit {
        Lit::Str(text) => semver_parses(text@),
        _ => false,
    }
}

/// Reports a `since` field at `span` of which `valid` tells whether it
/// holds a version.
pub fn report_semver(span: Span, valid: bool, out: &mut Vec<Diagnostic>)
    ensures
        views(final(out)@) == views(old(out)@) + semver_verdict(span, valid),
{
    if valid {
        assert(views(out@) + Seq::<DiagnosticView>::empty() =~= views(out@));
    } else {
        emit(out, span_lint(Lint::DeprecatedSemver, span, String::from_str(MSG_SEMVER)));
    }
}

/// Checks that the `since` field `lit` of a `#[deprecated]` attribute is a
/// version.
pub fn check_semver(span: Span, lit: &Lit, out: &mut Vec<Diagnostic>)
    ensures
        views(final(out)@) == views(old(out)@) + semver_verdict(span, is_version(*lit)),
{
    let valid = match lit {
        Lit::Str(text) => is_semver(text.as_str()),
        _ => false,
    };
    report_semver(span, valid, out);
}

/// Whether the nested item is the bare word `expected`.
pub open spec fn is_word_spec(nmi: NestedMetaItem, expected: Seq<char>) -> bool {
    match nmi.kind {
        NestedMetaItemKind::MetaItem(MetaItem { kind: MetaItemKind::Word(word), .. }) => word@ == expected,
        _ => false,
    }
}

fn is_word(nmi: &NestedMetaItem, expected: &str) -> (r: bool)
    ensures
        r == is_word_spec(*nmi, expected@),
{
    if let NestedMetaItemKind::MetaItem(mi) = &nmi.kind {
        if let MetaItemKind::Word(word) = &mi.kind {
            return text_eq(word.as_str(), expected);
        }
    }
    false
}

/// The `since` field that the nested item sets, if it is `since = ..`.
pub open spec fn since_of(item: NestedMetaItem) -> Option<Lit> {
    match item.kind {
        NestedMetaItemKind::MetaItem(MetaItem { kind: MetaItemKind::NameValue(name, lit), .. }) => if name@
            == "since"@ {
            Some(lit)
        } else {
            None
        },
        _ => None,
    }
}

/// What the check reports for the items `items[k..]` of a `#[deprecated]`
/// attribute.
pub open spec fn since_findings(items: Seq<NestedMetaItem>, k: int) -> Seq<DiagnosticView>
    decreases items.len() - k,
{
    if k < 0 || k >= items.len() {
        Seq::empty()
    } else {
        (match since_of(items[k]) {
            Some(lit) => semver_verdict(items[k].span, is_version(lit)),
            None => Seq::empty(),
        }) + since_findings(items, k + 1)
    }
}

/// What the check of one attribute reports: for `#[deprecated(..)]`, each
/// `since` field that is no version.
pub open spec fn attribute_findings(attr: Attribute) -> Seq<DiagnosticView> {
    match attr.value.kind {
        MetaItemKind::List(name, items) => if name@ == "deprecated"@ {
            since_findings(items@, 0)
        } else {
            Seq::empty()
        },
        _ => Seq::empty(),
    }
}

/// Whether the path, given by its segments, ends as `segments` does, as
/// far as both go.
pub open spec fn match_path_spec(path: Seq<Seq<char>>, segments: Seq<Seq<char>>) -> bool {
    forall|i: int, j: int|
        0 <= i < path.len() && 0 <= j < segments.len() && path.len() - i == segments.len() - j ==> #[trigger] path[i]
            == #[trigger] segments[j]
}

/// The views of the given string slices.
pub open spec fn slices(v: Seq<&str>) -> Seq<Seq<char>> {
    v.map_values(|t: &str| t@)
}

/// Match a path against a slice of segment string literals, from the last
/// segment backwards.
pub fn match_path(path: &Vec<String>, segments: &[&str]) -> (r: bool)
    ensures
        r == match_path_spec(texts(path@), slices(segments@)),
{
    let n = path.len();
    let m = segments.len();
    let mut k: usize = 0;
    while k < n && k < m
        invariant
            k <= n == path.len(),
            k <= m == segments.len(),
            forall|i: int, j: int|
                n - k <= i < n && 0 <= j < m && n - i == m - j ==> #[trigger] texts(path@)[i]
                    == #[trigger] slices(segments@)[j],
        decreases n - k,
    {
        if !text_eq(path[n - 1 - k].as_str(), segments[m - 1 - k]) {
            assert(texts(path@)[n - 1 - k] != slices(segments@)[m - 1 - k]);
            return false;
        }
        k += 1;
    }
    true
}

/// Match a path of the syntax tree against a slice of segment string
/// literals.
pub fn match_path_ast(path: &Vec<String>, segments: &[&str]) -> (r: bool)
    ensures
        r == match_path_spec(texts(path@), slices(segments@)),
{
    match_path(path, segments)
}

/// The segments of the path of the function that panics.
pub open spec fn begin_panic() -> Seq<Seq<char>> {
    seq!["std"@, "rt"@, "begin_panic"@]
}

/// Whether the expression at `at` does anything but return, break or
/// panic.
pub open spec fn is_relevant_expr_spec(s: Seq<Slot>, at: int) -> bool
    decreases s.len() - at, 0int,
{
    match expr_kind_of(s, at) {
        Some(ExprKind::Block) => match only_child(s, at) {
            Some(b) => at < b < s.len() && is_relevant_block_spec(s, b),
            None => true,
        },
        Some(ExprKind::Ret) => match only_child(s, at) {
            Some(e) => at < e < s.len() && is_relevant_expr_spec(s, e),
            None => false,
        },
        Some(ExprKind::Break { .. }) => false,
        Some(ExprKind::Call) => {
            let kids = children_of(s, at);
            if kids.len() >= 1 {
                match expr_kind_of(s, kids[0]) {
                    Some(ExprKind::Path { segments, .. }) => !match_path_spec(texts(segments@), begin_panic()),
                    _ => true,
                }
            } else {
                true
            }
        },
        _ => true,
    }
}

/// Whether the block at `b` does anything: it does if it begins with a
/// declaration, and else if the expression it begins with does.
pub open spec fn is_relevant_block_spec(s: Seq<Slot>, b: int) -> bool
    decreases s.len() - b, 1int,
{
    let stmts = block_stmts(s, b);
    if stmts.len() > 0 {
        match (s[stmts[0]].node.kind, only_child(s, stmts[0])) {
            (NodeKind::Stmt(StmtKind::Decl), _) => true,
            (NodeKind::Stmt(_), Some(e)) => b < e < s.len() && is_relevant_expr_spec(s, e),
            _ => true,
        }
    } else {
        match block_tail(s, b) {
            Some(e) => b < e < s.len() && is_relevant_expr_spec(s, e),
            None => false,
        }
    }
}

fn is_relevant_expr(tree: &Tree, at: usize) -> (r: bool)
    requires
        at < tree@.len(),
    ensures
        r == is_relevant_expr_spec(tree@, at as int),
    decreases tree@.len() - at, 0int,
{
    match expr_kind(tree, at) {
        Some(ExprKind::Block) => {
            let inner = tree.children(at);
            if inner.len() == 1 {
                is_relevant_block(tree, inner[0])
            } else {
                true
            }
        },
        Some(ExprKind::Ret) => {
            let inner = tree.children(at);
            if inner.len() == 1 {
                is_relevant_expr(tree, inner[0])
            } else {
                false
            }
        },
        Some(ExprKind::Break { .. }) => false,
        Some(ExprKind::Call) => {
            let kids = tree.children(at);
            if kids.len() >= 1 {
                match expr_kind(tree, kids[0]) {
                    Some(ExprKind::Path { segments, .. }) => {
                        let panic_path = ["std", "rt", "begin_panic"];
                        assert(slices(panic_path@) =~= begin_panic());
                        !match_path(segments, panic_path.as_slice())
                    },
                    _ => true,
                }
            } else {
                true
            }
        },
        _ => true,
    }
}

fn is_relevant_block(tree: &Tree, b: usize) -> (r: bool)
    requires
        b < tree@.len(),
    ensures
        r == is_relevant_block_spec(tree@, b as int),
    decreases tree@.len() - b, 1int,
{
    let (stmts, tail) = block_parts(tree, b);
    if stmts.len() > 0 {
        assert(stmts@.map_values(|k: usize| k as int)[0] == stmts[0]);
        match &tree.node(stmts[0]).kind {
            NodeKind::Stmt(StmtKind::Decl) => true,
            NodeKind::Stmt(_) => {
                let inner = tree.children(stmts[0]);
                if inner.len() == 1 {
                    is_relevant_expr(tree, inner[0])
                } else {
                    true
                }
            },
            _ => true,
        }
    } else {
        match tail {
            Some(e) => is_relevant_expr(tree, e),
            None => false,
        }
    }
}

/// Whether the item at `at` is a function or a method with a body that
/// does something, or a method of a trait without a body.
pub open spec fn is_relevant_item_spec(s: Seq<Slot>, at: int) -> bool {
    match s[at].node.kind {
        NodeKind::Item { item: ItemKind::Fn, .. } | NodeKind::Item { item: ItemKind::ImplMethod, .. } | NodeKind::Item {
            item: ItemKind::TraitMethod { has_body: true },
            ..
        } => match only_child(s, at) {
            Some(b) => s[b].node.kind is Block && is_relevant_block_spec(s, b),
            None => false,
        },
        NodeKind::Item { item: ItemKind::TraitMethod { has_body: false }, .. } => true,
        _ => false,
    }
}

fn is_relevant_item(tree: &Tree, at: usize) -> (r: bool)
    requires
        at < tree@.len(),
    ensures
        r == is_relevant_item_spec(tree@, at as int),
{
    let has_body = match &tree.node(at).kind {
        NodeKind::Item { item: ItemKind::Fn, .. } => true,
        NodeKind::Item { item: ItemKind::ImplMethod, .. } => true,
        NodeKind::Item { item: ItemKind::TraitMethod { has_body }, .. } => {
            if !*has_body {
                return true;
            }
            true
        },
        _ => false,
    };
    if !has_body {
        return false;
    }
    let inner = tree.children(at);
    if inner.len() != 1 {
        return false;
    }
    match &tree.node(inner[0]).kind {
        NodeKind::Block => is_relevant_block(tree, inner[0]),
        _ => false,
    }
}

/// Whether the attribute is `#[inline(always)]`.
pub open spec fn is_inline_always(attr: Attribute) -> bool {
    match attr.value.kind {
        MetaItemKind::List(name, values) => values@.len() == 1 && name@ == "inline"@ && is_word_spec(
            values@[0],
            "always"@,
        ),
        _ => false,
    }
}

/// What the check for `#[inline(always)]` reports for the attributes
/// `attrs[k..]` of the item `name`.
pub open spec fn inline_findings(name: Seq<char>, attrs: Seq<Attribute>, k: int) -> Seq<DiagnosticView>
    decreases attrs.len() - k,
{
    if k < 0 || k >= attrs.len() {
        Seq::empty()
    } else {
        (if is_inline_always(attrs[k]) {
            seq![
                plain(
                    Lint::InlineAlways,
                    attrs[k].span,
                    "you have declared `#[inline(always)]` on `"@ + name + "`. This is usually a bad idea"@,
                ),
            ]
        } else {
            Seq::empty()
        }) + inline_findings(name, attrs, k + 1)
    }
}

/// What the check for `#[inline(always)]` reports for an item at `span`:
/// nothing for an item that a macro made.
pub open spec fn attrs_findings(source: SourceMap, span: Span, name: Seq<char>, attrs: Seq<Attribute>) -> Seq<
    DiagnosticView,
> {
    if expn_info(source.expansions@, span.expn_id).is_some() {
        Seq::empty()
    } else {
        inline_findings(name, attrs, 0)
    }
}

fn check_attrs(source: &SourceMap, span: Span, name: &String, attrs: &Vec<Attribute>, out: &mut Vec<Diagnostic>)
    ensures
        views(final(out)@) == views(old(out)@) + attrs_findings(*source, span, name@, attrs@),
{
    let ghost before = views(out@);
    assert(before + Seq::<DiagnosticView>::empty() =~= before);
    if in_macro(source, span) {
        return ;
    }
    let n = attrs.len();
    let mut k: usize = 0;
    let ghost mut done = Seq::<DiagnosticView>::empty();
    while k < n
        invariant
            k <= n == attrs.len(),
            views(out@) == before + done,
            done + inline_findings(name@, attrs@, k as int) == inline_findings(name@, attrs@, 0),
        decreases n - k,
    {
        let ghost rest = inline_findings(name@, attrs@, k + 1);
        let attr = &attrs[k];
        let mut fired = false;
        if let MetaItemKind::List(inline, values) = &attr.value.kind {
            if values.len() == 1 && text_eq(inline.as_str(), "inline") && is_word(&values[0], "always") {
                let mut msg = String::from_str("you have declared `#[inline(always)]` on `");
                msg.append(name.as_str());
                msg.append("`. This is usually a bad idea");
                let d = span_lint(Lint::InlineAlways, attr.span, msg);
                proof {
                    assert(done + (seq![d@] + rest) =~= (done + seq![d@]) + rest);
                    assert(before + (done + seq![d@]) =~= (before + done) + seq![d@]);
                    done = done + seq![d@];
                }
                emit(out, d);
                fired = true;
            }
        }
        proof {
            if !fired {
                assert(done + (Seq::<DiagnosticView>::empty() + rest) =~= done + rest);
            }
        }
        k += 1;
    }
    assert(done + Seq::<DiagnosticView>::empty() =~= done);
}

/// The lints that the attribute sets a level for, if it is `#[allow(..)]`,
/// `#[warn(..)]`, `#[deny(..)]` or `#[forbid(..)]`.
pub open spec fn lint_list_of(attr: Attribute) -> Option<Seq<NestedMetaItem>> {
    match attr.value.kind {
        MetaItemKind::List(name, list) => if name@ == "allow"@ || name@ == "warn"@ || name@ == "deny"@
            || name@ == "forbid"@ {
            Some(list@)
        } else {
            None
        },
        _ => None,
    }
}

/// Whether the list names the lint `unused_imports`.
pub open spec fn names_unused_imports(list: Seq<NestedMetaItem>) -> bool {
    exists|k: int| 0 <= k < list.len() && is_word_spec(#[trigger] list[k], "unused_imports"@)
}

/// The attribute text with a `!` behind its first character.
pub open spec fn with_bang(text: Seq<char>) -> Seq<char> {
    text.subrange(0, 1) + "!"@ + text.subrange(1, text.len() as int)
}

/// The finding for a lint attribute on an import: it has no effect there.
/// No finding is made where the source holds no text for the attribute.
pub open spec fn useless_attr_finding(src: Seq<char>, attr: Attribute) -> Seq<DiagnosticView> {
    match snippet_of(src, attr.span) {
        Some(text) => if text.len() > 1 {
            seq![
                with_child(
                    plain(Lint::UselessAttribute, attr.span, MSG_USELESS_ATTRIBUTE@),
                    suggestion_of(attr.span, HELP_FORGOT_BANG@, with_bang(text)),
                ),
            ]
        } else {
            Seq::empty()
        },
        None => Seq::empty(),
    }
}

/// What the check for lint attributes on imports reports for the
/// attributes `attrs[k..]`. On a `use` item the check ends at the first
/// attribute that names `unused_imports`.
pub open spec fn useless_findings(src: Seq<char>, attrs: Seq<Attribute>, is_use: bool, k: int) -> Seq<
    DiagnosticView,
>
    decreases attrs.len() - k,
{
    if k < 0 || k >= attrs.len() {
        Seq::empty()
    } else {
        match lint_list_of(attrs[k]) {
            Some(list) => if is_use && names_unused_imports(list) {
                Seq::empty()
            } else {
                useless_attr_finding(src, attrs[k]) + useless_findings(src, attrs, is_use, k + 1)
            },
            None => useless_findings(src, attrs, is_use, k + 1),
        }
    }
}

/// What the attribute checks report for the item at `at`: for a function
/// that does something its `#[inline(always)]`, and for an import its lint
/// attributes.
pub open spec fn item_findings(source: SourceMap, s: Seq<Slot>, at: int) -> Seq<DiagnosticView> {
    match s[at].node.kind {
        NodeKind::Item { item, name, attrs } => (if is_relevant_item_spec(s, at) {
            attrs_findings(source, s[at].node.span, name@, attrs@)
        } else {
            Seq::empty()
        }) + (if item == ItemKind::ExternCrate || item == ItemKind::Use {
            useless_findings(source.src@, attrs@, item == ItemKind::Use, 0)
        } else {
            Seq::empty()
        }),
        _ => Seq::empty(),
    }
}

fn has_unused_imports(list: &Vec<NestedMetaItem>) -> (r: bool)
    ensures
        r == names_unused_imports(list@),
{
    let n = list.len();
    let mut k: usize = 0;
    while k < n
        invariant
            k <= n == list.len(),
            forall|i: int| 0 <= i < k ==> !is_word_spec(#[trigger] list[i], "unused_imports"@),
        decreases n - k,
    {
        if is_word(&list[k], "unused_imports") {
            return true;
        }
        k += 1;
    }
    false
}

fn lint_list(attr: &Attribute) -> (r: Option<&Vec<NestedMetaItem>>)
    ensures
        match r {
            Some(list) => lint_list_of(*attr) == Some(list@),
            None => lint_list_of(*attr).is_none(),
        },
{
    match &attr.value.kind {
        MetaItemKind::List(name, list) => {
            if text_eq(name.as_str(), "allow") || text_eq(name.as_str(), "warn") || text_eq(
                name.as_str(),
                "deny",
            ) || text_eq(name.as_str(), "forbid") {
                Some(list)
            } else {
                None
            }
        },
        _ => None,
    }
}

fn check_useless_attr(source: &SourceMap, attr: &Attribute, out: &mut Vec<Diagnostic>)
    ensures
        views(final(out)@) == views(old(out)@) + useless_attr_finding(source.src@, *attr),
{
    assert(views(out@) + Seq::<DiagnosticView>::empty() =~= views(out@));
    if let Some(text) = snippet_opt(source, attr.span) {
        let n = text.as_str().unicode_len();
        if n > 1 {
            let mut sugg = String::from_str(text.as_str().substring_char(0, 1));
            sugg.append("!");
            sugg.append(text.as_str().substring_char(1, n));
            let d = span_lint_and_then(
                Lint::UselessAttribute,
                attr.span,
                String::from_str(MSG_USELESS_ATTRIBUTE),
                span_suggestion(attr.span, String::from_str(HELP_FORGOT_BANG), sugg),
            );
            emit(out, d);
        }
    }
}

/// The checks for attributes.
#[derive(Copy, Clone, Debug)]
pub struct AttrPass;

impl AttrPass {
    /// The lints of this pass.
    pub fn get_lints(&self) -> (lints: Vec<Lint>)
        ensures
            lints@ == seq![Lint::InlineAlways, Lint::DeprecatedSemver, Lint::UselessAttribute],
    {
        vec![Lint::InlineAlways, Lint::DeprecatedSemver, Lint::UselessAttribute]
    }

    /// Checks the `since` fields of a `#[deprecated]` attribute.
    pub fn check_attribute(&mut self, attr: &Attribute, out: &mut Vec<Diagnostic>)
        ensures
            views(final(out)@) == views(old(out)@) + attribute_findings(*attr),
    {
        let ghost before = views(out@);
        assert(before + Seq::<DiagnosticView>::empty() =~= before);
        if let MetaItemKind::List(name, items) = &attr.value.kind {
            if items.len() == 0 || !text_eq(name.as_str(), "deprecated") {
                return ;
            }
            let n = items.len();
            let mut k: usize = 0;
            let ghost mut done = Seq::<DiagnosticView>::empty();
            while k < n
                invariant
                    k <= n == items.len(),
                    views(out@) == before + done,
                    done + since_findings(items@, k as int) == since_findings(items@, 0),
                decreases n - k,
            {
                let ghost rest = since_findings(items@, k + 1);
                let item = &items[k];
                let mut checked = false;
                if let NestedMetaItemKind::MetaItem(mi) = &item.kind {
                    if let MetaItemKind::NameValue(name, lit) = &mi.kind {
                        if text_eq(name.as_str(), "since") {
                            let ghost here = semver_verdict(item.span, is_version(*lit));
                            assert(done + (here + rest) =~= (done + here) + rest);
                            assert(before + (done + here) =~= (before + done) + here);
                            check_semver(item.span, lit, out);
                            proof {
                                done = done + here;
                            }
                            checked = true;
                        }
                    }
                }
                proof {
                    if !checked {
                        assert(done + (Seq::<DiagnosticView>::empty() + rest) =~= done + rest);
                    }
                }
                k += 1;
            }
            assert(done + Seq::<DiagnosticView>::empty() =~= done);
        }
    }

    /// Checks the attributes of the item at `at`.
    pub fn check_item(&mut self, source: &SourceMap, tree: &Tree, at: usize, out: &mut Vec<Diagnostic>)
        requires
            at < tree@.len(),
        ensures
            views(final(out)@) == views(old(out)@) + item_findings(*source, tree@, at as int),
    {
        let ghost before = views(out@);
        assert(before + Seq::<DiagnosticView>::empty() =~= before);
        let (item, name, attrs) = match &tree.node(at).kind {
            NodeKind::Item { item, name, attrs } => (*item, name, attrs),
            _ => {
                return ;
            },
        };
        let ghost first = if is_relevant_item_spec(tree@, at as int) {
            attrs_findings(*source, tree@[at as int].node.span, name@, attrs@)
        } else {
            Seq::empty()
        };
        if is_relevant_item(tree, at) {
            check_attrs(source, tree.node(at).span, name, attrs, out);
        }
        assert(views(out@) =~= before + first);
        let is_use = match item {
            ItemKind::Use => true,
            _ => false,
        };
        let is_import = is_use || match item {
            ItemKind::ExternCrate => true,
            _ => false,
        };
        if !is_import {
            assert(before + (first + Seq::<DiagnosticView>::empty()) =~= before + first);
            return ;
        }
        let n = attrs.len();
        let mut k: usize = 0;
        let ghost mut done = Seq::<DiagnosticView>::empty();
        assert((before + first) + done =~= before + first);
        assert(done + useless_findings(source.src@, attrs@, is_use, 0) =~= useless_findings(
            source.src@,
            attrs@,
            is_use,
            0,
        ));
        while k < n
            invariant
                k <= n == attrs.len(),
                views(out@) == (before + first) + done,
                done + useless_findings(source.src@, attrs@, is_use, k as int) == useless_findings(
                    source.src@,
                    attrs@,
                    is_use,
                    0,
                ),
            ensures
                views(out@) == (before + first) + useless_findings(source.src@, attrs@, is_use, 0),
            decreases n - k,
        {
            let ghost rest = useless_findings(source.src@, attrs@, is_use, k + 1);
            let attr = &attrs[k];
            match lint_list(attr) {
                Some(list) => {
                    // whitelist `unused_imports`
                    if is_use && has_unused_imports(list) {
                        assert(done + Seq::<DiagnosticView>::empty() =~= done);
                        break ;
                    }
                    let ghost here = useless_attr_finding(source.src@, *attr);
                    assert(done + (here + rest) =~= (done + here) + rest);
                    assert((before + first) + (done + here) =~= ((before + first) + done) + here);
                    check_useless_attr(source, attr, out);
                    proof {
                        done = done + here;
                    }
                },
                None => {},
            }
            k += 1;
            proof {
                if k == n {
                    assert(done + Seq::<DiagnosticView>::empty() =~= done);
                }
            }
        }
        assert((before + first) + useless_findings(source.src@, attrs@, is_use, 0) =~= before + (first
            + useless_findings(source.src@, attrs@, is_use, 0)));
    }

    /// Checks the attributes of the method at `at` of an impl.
    pub fn check_impl_item(&mut self, source: &SourceMap, tree: &Tree, at: usize, out: &mut Vec<Diagnostic>)
        requires
            at < tree@.len(),
        ensures
            views(final(out)@) == views(old(out)@) + item_findings(*source, tree@, at as int),
    {
        self.check_item(source, tree, at, out);
    }

    /// Checks the attributes of the method at `at` of a trait.
    pub fn check_trait_item(&mut self, source: &SourceMap, tree: &Tree, at: usize, out: &mut Vec<Diagnostic>)
        requires
            at < tree@.len(),
        ensures
            views(final(out)@) == views(old(out)@) + item_findings(*source, tree@, at as int),
    {
        self.check_item(source, tree, at, out);
    }
}

} // verus!
