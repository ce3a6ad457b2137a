//! The source text and the record of macro expansions, from which the
//! detectors take snippets for their suggestions and learn where a span
//! came from.

use vstd::prelude::*;
use vstd::string::*;
use crate::node::ExprKind;
use crate::query::{expr_kind, expr_kind_of, span_of};
use crate::span::Span;
use crate::text::{is_prefix, starts_with, text_eq};
use crate::tree::{Slot, Tree};
use crate::trim::{trim_multiline, trim_multiline_spec};

verus! {

#[derive(Clone, Copy, Debug, PartialEq, Eq, Structural)]
pub enum ExpnFormat {
    /// An attribute such as `#[derive(..)]`, which only a plugin expands.
    MacroAttribute,
    /// A call such as `name!(..)`.
    MacroBang,
}

/// The macro that an expansion ran, with the span of its definition where
/// that is known.
#[derive(Debug, PartialEq, Eq)]
pub struct NameAndSpan {
    pub format: ExpnFormat,
    pub name: String,
    pub span: Option<Span>,
}

/// One macro expansion: where the macro was called, and which macro it was.
#[derive(Debug, PartialEq, Eq)]
pub struct ExpnInfo {
    pub call_site: Span,
    pub callee: NameAndSpan,
}

/// The source text, addressed by character position, and the expansions
/// that spans refer to by their `expn_id`.
#[derive(Debug, PartialEq, Eq)]
pub struct SourceMap {
    pub src: String,
    pub expansions: Vec<ExpnInfo>,
}

/// The text that `span` covers, if the span lies inside the text.
pub open spec fn snippet_of(src: Seq<char>, span: Span) -> Option<Seq<char>> {
    if span.lo <= span.hi <= src.len() {
        Some(src.subrange(span.lo as int, span.hi as int))
    } else {
        None
    }
}

/// The text that `span` covers, or `default` where there is none.
pub open spec fn snippet_or(src: Seq<char>, span: Span, default: Seq<char>) -> Seq<char> {
    match snippet_of(src, span) {
        Some(t) => t,
        None => default,
    }
}

/// The expansion with the given id, if the record holds one.
pub open spec fn expn_info(exps: Seq<ExpnInfo>, id: u32) -> Option<ExpnInfo> {
    if id < exps.len() {
        Some(exps[id as int])
    } else {
        None
    }
}

/// What `in_external_macro` answers for the expansion `info`.
pub open spec fn expansion_is_external(src: Seq<char>, info: ExpnInfo) -> bool {
    ||| info.callee.format == ExpnFormat::MacroAttribute
    ||| match info.callee.span {
        None => true,
        Some(def_span) => match snippet_of(src, def_span) {
            None => true,
            Some(code) => !is_prefix("macro_rules"@, code),
        },
    }
}

/// What `in_external_macro` answers.
pub open spec fn in_external_macro_spec(src: Seq<char>, exps: Seq<ExpnInfo>, span: Span) -> bool {
    match expn_info(exps, span.expn_id) {
        None => false,
        Some(info) => expansion_is_external(src, info),
    }
}

/// The call site of the nearest expansion of the macro `name` around
/// `span`, looking through at most `fuel` expansions.
pub open spec fn expn_of(exps: Seq<ExpnInfo>, span: Span, name: Seq<char>, fuel: nat) -> Option<Span>
    decreases fuel,
{
    if fuel == 0 {
        None
    } else {
        match expn_info(exps, span.expn_id) {
            None => None,
            Some(info) => if info.callee.name@ == name {
                Some(info.call_site)
            } else {
                expn_of(exps, info.call_site, name, (fuel - 1) as nat)
            },
        }
    }
}

impl SourceMap {
    /// The expansion that `span` came from, if a macro produced it.
    pub fn expn_info(&self, span: Span) -> (r: Option<&ExpnInfo>)
        ensures
            match r {
                Some(info) => expn_info(self.expansions@, span.expn_id) == Some(*info),
                None => expn_info(self.expansions@, span.expn_id).is_none(),
            },
    {
        let id = span.expn_id as usize;
        if id < self.expansions.len() {
            Some(&self.expansions[id])
        } else {
            None
        }
    }

    /// The text that `span` covers, if the span lies inside the text.
    pub fn span_to_snippet(&self, span: Span) -> (r: Option<String>)
        ensures
            match r {
                Some(t) => snippet_of(self.src@, span) == Some(t@),
                None => snippet_of(self.src@, span).is_none(),
            },
    {
        let s = self.src.as_str();
        if span.lo <= span.hi && span.hi <= s.unicode_len() {
            Some(String::from_str(s.substring_char(span.lo, span.hi)))
        } else {
            None
        }
    }
}

/// Returns true if this span was expanded by any macro.
pub fn in_macro(source: &SourceMap, span: Span) -> (r: bool)
    ensures
        r == expn_info(source.expansions@, span.expn_id).is_some(),
{
    source.expn_info(span).is_some()
}

/// Returns true if the macro that expanded the span was defined outside of
/// the current crate or was a compiler plugin.
pub fn in_external_macro(source: &SourceMap, span: Span) -> (r: bool)
    ensures
        r == in_external_macro_spec(source.src@, source.expansions@, span),
{
    match source.expn_info(span) {
        None => false,
        Some(info) => {
            match info.callee.format {
                ExpnFormat::MacroAttribute => true,
                ExpnFormat::MacroBang => match info.callee.span {
                    None => true,
                    Some(def_span) => match source.span_to_snippet(def_span) {
                        None => true,
                        Some(code) => !starts_with(code.as_str(), "macro_rules"),
                    },
                },
            }
        },
    }
}

/// Convert a span to a code snippet if available, otherwise use default.
pub fn snippet(source: &SourceMap, span: Span, default: &str) -> (r: String)
    ensures
        r@ == snippet_or(source.src@, span, default@),
{
    match source.span_to_snippet(span) {
        Some(t) => t,
        None => String::from_str(default),
    }
}

/// Convert a span to a code snippet. Returns `None` if not available.
pub fn snippet_opt(source: &SourceMap, span: Span) -> (r: Option<String>)
    ensures
        match r {
            Some(t) => snippet_of(source.src@, span) == Some(t@),
            None => snippet_of(source.src@, span).is_none(),
        },
{
    source.span_to_snippet(span)
}

/// Return the pre-expansion span if this comes from an expansion of the
/// macro `name`, directly or through other macros.
pub fn is_expn_of(source: &SourceMap, span: Span, name: &str) -> (r: Option<Span>)
    ensures
        r == expn_of(source.expansions@, span, name@, source.expansions@.len()),
{
    let mut cur = span;
    let mut fuel = source.expansions.len();
    while fuel > 0
        invariant
            expn_of(source.expansions@, cur, name@, fuel as nat) == expn_of(
                source.expansions@,
                span,
                name@,
                source.expansions@.len(),
            ),
        decreases fuel,
    {
        match source.expn_info(cur) {
            None => {
                return None;
            },
            Some(info) => {
                if text_eq(info.callee.name.as_str(), name) {
                    return Some(info.call_site);
                }
                cur = info.call_site;
                fuel -= 1;
            },
        }
    }
    None
}

/// Return the pre-expansion span if this directly comes from an expansion
/// of the macro `name`.
pub fn is_direct_expn_of(source: &SourceMap, span: Span, name: &str) -> (r: Option<Span>)
    ensures
        r == expn_of(source.expansions@, span, name@, 1),
{
    match source.expn_info(span) {
        None => None,
        Some(info) => {
            if text_eq(info.callee.name.as_str(), name) {
                Some(info.call_site)
            } else {
                assert(expn_of(source.expansions@, info.call_site, name@, 0) == None::<Span>);
                None
            }
        },
    }
}

/// The text of a block-like span, or `default`, without the indentation
/// that its lines after the first share.
pub open spec fn snippet_block_spec(src: Seq<char>, span: Span, default: Seq<char>) -> Seq<char> {
    trim_multiline_spec(snippet_or(src, span, default), true)
}

/// Convert a span (from a block) to a code snippet if available,
/// otherwise use default. This trims the code of indentation, except for
/// the first line. Use it for blocks or block-like things which need to be
/// printed as such.
pub fn snippet_block(source: &SourceMap, span: Span, default: &str) -> (r: String)
    ensures
        r@ == snippet_block_spec(source.src@, span, default@),
{
    let snip = snippet(source, span, default);
    trim_multiline(snip, true)
}

/// The expression at `at` written as a block: its own text if it is a
/// block, else its text in braces; `option`, if given, is put behind it
/// inside the braces.
pub open spec fn expr_block_spec(
    src: Seq<char>,
    s: Seq<Slot>,
    at: int,
    option: Option<Seq<char>>,
    default: Seq<char>,
) -> Seq<char> {
    let code = snippet_block_spec(src, span_of(s, at), default);
    let string = match option {
        Some(t) => t,
        None => Seq::empty(),
    };
    if expr_kind_of(s, at) == Some(ExprKind::Block) {
        code + string
    } else if string.len() == 0 {
        "{ "@ + code + " }"@
    } else {
        "{\n"@ + code + ";\n"@ + string + "\n}"@
    }
}

/// Like `snippet_block`, but add braces if the expr is not an
/// `ExprBlock`. Also takes an `Option<String>` which can be put inside the
/// braces.
pub fn expr_block(source: &SourceMap, tree: &Tree, at: usize, option: Option<String>, default: &str) -> (r:
    String)
    requires
        at < tree@.len(),
    ensures
        r@ == expr_block_spec(
            source.src@,
            tree@,
            at as int,
            match option {
                Some(t) => Some(t@),
                None => None,
            },
            default@,
        ),
{
    let code = snippet_block(source, tree.node(at).span, default);
    let string = match option {
        Some(t) => t,
        None => String::new(),
    };
    let is_block = match expr_kind(tree, at) {
        Some(ExprKind::Block) => true,
        _ => false,
    };
    if is_block {
        let mut r = code;
        r.append(string.as_str());
        r
    } else if string.as_str().is_empty() {
        let mut r = String::from_str("{ ");
        r.append(code.as_str());
        r.append(" }");
        r
    } else {
        let mut r = String::from_str("{\n");
        r.append(code.as_str());
        r.append(";\n");
        r.append(string.as_str());
        r.append("\n}");
        r
    }
}

} // verus!
