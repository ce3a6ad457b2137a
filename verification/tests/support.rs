use clippy_lints::diagnostics::{
    multispan_sugg, span_help_and_lint, span_lint, span_lint_and_then, span_note_and_lint, span_suggestion,
    Level, Levels, Lint, Replacement, SubLevel,
};
use clippy_lints::driver::{
    choose_target, contains_arg, process_args, process_result, runs_lints, rustc_args, TargetChoice,
};
use clippy_lints::higher::{for_loop, range, vec_macro};
use clippy_lints::node::{
    Attribute, BinOp, Def, ExprKind, ItemKind, Lit, MetaItem, MetaItemKind, Mutability, Node, RangeLimits,
    StmtKind, VecArgs,
};
use clippy_lints::query::{
    get_enclosing_block, get_parent_expr, is_integer_literal, var_def_id,
};
use clippy_lints::scope::ScopeTree;
use clippy_lints::source::{
    expr_block, in_external_macro, in_macro, is_direct_expn_of, is_expn_of, snippet, snippet_block,
    snippet_opt, ExpnFormat, ExpnInfo, NameAndSpan, SourceMap,
};
use clippy_lints::span::{differing_macro_contexts, Span, NO_EXPANSION};
use clippy_lints::sugg::{precedence, AssocOp, Sugg, SuggKind};
use clippy_lints::text::{ends_with, path_to_string, starts_with, text_eq};
use clippy_lints::tree::Tree;
use clippy_lints::trim::trim_multiline;
use clippy_lints::ty::{
    is_copy, match_def_path, match_type, type_is_unsafe_function, walk_ptrs_ty, walk_ptrs_ty_depth, Ty,
};
use clippy_lints::utils::{get_item_name, method_chain_args, parse_attrs, parse_u64, LimitStack};

fn src(text: &str) -> SourceMap {
    SourceMap { src: text.to_string(), expansions: Vec::new() }
}

fn leaf(id: u32, kind: ExprKind) -> Tree {
    Tree::leaf(Node::expr(id, Span::new(0, 0), kind))
}

fn node(id: u32, kind: ExprKind, kids: Vec<Tree>) -> Tree {
    Tree::branch(Node::expr(id, Span::new(0, 0), kind), kids)
}

fn var(id: u32, name: &str) -> Tree {
    leaf(id, ExprKind::Path { qself: false, segments: vec![name.to_string()], res: Def::Local(id + 100) })
}

fn call_of(id: u32, name: &str, kids: Vec<Tree>) -> Tree {
    node(id, ExprKind::MethodCall { name: name.to_string(), trait_path: None, impl_path: None }, kids)
}

#[test]
fn tree_lays_nodes_out_in_pre_order() {
    let tree = node(
        1,
        ExprKind::Call,
        vec![var(2, "f"), node(3, ExprKind::Index, vec![var(4, "v"), var(5, "i")]), var(6, "z")],
    );
    assert_eq!(tree.len(), 6);
    let ids: Vec<u32> = (0..tree.len()).map(|at| tree.node(at).id).collect();
    assert_eq!(ids, vec![1, 2, 3, 4, 5, 6]);
    assert_eq!(tree.children(0), vec![1, 2, 5]);
    assert_eq!(tree.children(2), vec![3, 4]);
    assert!(tree.children(1).is_empty());
    assert_eq!(tree.last(0), 5);
    assert_eq!(tree.last(2), 4);
    assert_eq!(tree.last(5), 5);
    assert_eq!(tree.parent(0), None);
    assert_eq!(tree.parent(4), Some(2));
    assert_eq!(tree.parent(5), Some(0));
    assert_eq!(tree.find(5), Some(4));
    assert_eq!(tree.find(77), None);
}

#[test]
fn parent_expression_looks_through_arms() {
    let arm = Tree::branch(
        Node::arm(3, Span::new(0, 0), 1, false),
        vec![Tree::leaf(Node::pat(4, Span::new(0, 0), clippy_lints::node::PatKind::Wild)), var(5, "body")],
    );
    let tree = node(
        1,
        ExprKind::Match(clippy_lints::node::MatchSource::Normal),
        vec![var(2, "x"), arm],
    );
    // The body of the arm is at position 4; the match is its parent
    // expression.
    assert_eq!(get_parent_expr(&tree, 4), Some(0));
    assert_eq!(get_parent_expr(&tree, 1), Some(0));
    assert_eq!(get_parent_expr(&tree, 0), None);
    // A statement's expression has no parent expression.
    let block = Tree::branch(
        Node::block(10, Span::new(0, 0)),
        vec![Tree::branch(Node::stmt(11, Span::new(0, 0), StmtKind::Semi), vec![var(12, "x")])],
    );
    assert_eq!(get_parent_expr(&block, 2), None);
    assert_eq!(get_enclosing_block(&block, 2), Some(0));
}

#[test]
fn enclosing_block_of_a_function_is_its_body() {
    let body = Tree::branch(
        Node::block(2, Span::new(0, 0)),
        vec![Tree::branch(Node::stmt(3, Span::new(0, 0), StmtKind::Semi), vec![var(4, "x")])],
    );
    let tree = Tree::branch(
        Node::item(1, Span::new(0, 0), ItemKind::Fn, "f".to_string(), Vec::new()),
        vec![body],
    );
    assert_eq!(get_enclosing_block(&tree, 3), Some(1));
    assert_eq!(get_enclosing_block(&tree, 1), Some(1));
    assert_eq!(get_enclosing_block(&tree, 0), None);
    assert_eq!(get_item_name(&tree, 3).map(|s| s.as_str()), Some("f"));
    assert_eq!(get_item_name(&tree, 0), None);
}

#[test]
fn shapes_are_recognised_only_when_complete() {
    let full = node(
        1,
        ExprKind::Range { limits: RangeLimits::Closed, has_start: true, has_end: true },
        vec![var(2, "a"), var(3, "b")],
    );
    let r = range(&full, 0).expect("a range");
    assert_eq!((r.start, r.end, r.limits), (Some(1), Some(2), RangeLimits::Closed));
    let from = node(
        1,
        ExprKind::Range { limits: RangeLimits::HalfOpen, has_start: true, has_end: false },
        vec![var(2, "a")],
    );
    let r = range(&from, 0).expect("a range");
    assert_eq!((r.start, r.end), (Some(1), None));
    let broken = node(
        1,
        ExprKind::Range { limits: RangeLimits::HalfOpen, has_start: true, has_end: true },
        vec![var(2, "a")],
    );
    assert_eq!(range(&broken, 0), None);
    assert_eq!(range(&var(1, "x"), 0), None);
    assert_eq!(for_loop(&node(1, ExprKind::ForLoop, vec![var(2, "a")]), 0), None);
    assert_eq!(vec_macro(&node(1, ExprKind::VecMacro(VecArgs::Repeat), vec![var(2, "a")]), 0), None);
    assert_eq!(
        vec_macro(&node(1, ExprKind::VecMacro(VecArgs::Repeat), vec![var(2, "a"), var(3, "n")]), 0),
        Some(VecArgs::Repeat)
    );
    assert_eq!(vec_macro(&leaf(1, ExprKind::VecMacro(VecArgs::Vec)), 0), Some(VecArgs::Vec));
}

#[test]
fn literal_and_variable_queries() {
    let tree = node(
        1,
        ExprKind::AssignOp(BinOp::Add),
        vec![var(2, "i"), Tree::leaf(Node::integral(3, Span::new(0, 0), ExprKind::Lit(Lit::Int(1)), 1))],
    );
    assert!(is_integer_literal(&tree, 2, 1));
    assert!(!is_integer_literal(&tree, 2, 0));
    assert!(!is_integer_literal(&tree, 1, 1));
    assert_eq!(var_def_id(&tree, 1), Some(102));
    assert_eq!(var_def_id(&tree, 2), None);
}

#[test]
fn method_chains_are_matched_from_the_last_call() {
    // foo.bar().baz()
    let tree = call_of(1, "baz", vec![call_of(2, "bar", vec![var(3, "foo")])]);
    assert_eq!(method_chain_args(&tree, 0, &["bar", "baz"]), Some(vec![1, 0]));
    assert_eq!(method_chain_args(&tree, 0, &["baz"]), Some(vec![0]));
    assert_eq!(method_chain_args(&tree, 0, &[]), Some(vec![]));
    assert_eq!(method_chain_args(&tree, 0, &["baz", "bar"]), None);
    assert_eq!(method_chain_args(&tree, 0, &["foo", "bar", "baz"]), None);
    assert_eq!(method_chain_args(&tree, 2, &["bar"]), None);
}

#[test]
fn snippets_are_cut_from_the_source() {
    let source = src("let x = 5;");
    assert_eq!(snippet(&source, Span::new(4, 5), ".."), "x");
    assert_eq!(snippet(&source, Span::new(0, 10), ".."), "let x = 5;");
    assert_eq!(snippet(&source, Span::new(3, 3), ".."), "");
    assert_eq!(snippet(&source, Span::new(4, 11), ".."), "..");
    assert_eq!(snippet(&source, Span::new(5, 4), "_"), "_");
    assert_eq!(snippet_opt(&source, Span::new(8, 9)), Some("5".to_string()));
    assert_eq!(snippet_opt(&source, Span::new(8, 99)), None);
}

#[test]
fn snippets_count_characters_not_bytes() {
    let source = src("é = 1");
    assert_eq!(snippet(&source, Span::new(0, 1), ".."), "é");
    assert_eq!(snippet(&source, Span::new(4, 5), ".."), "1");
}

#[test]
fn multiline_text_loses_its_shared_indentation() {
    assert_eq!(trim_multiline("    a\n    b".to_string(), false), "a\nb");
    assert_eq!(trim_multiline("{\n        a;\n      b;\n    }".to_string(), true), "{\n    a;\n  b;\n}");
    assert_eq!(trim_multiline("a\n  b\n\n  c".to_string(), true), "a\nb\n\nc");
    assert_eq!(trim_multiline("\ta\n\t\tb".to_string(), false), "a\n\tb");
    assert_eq!(trim_multiline(" \t a\n \t b".to_string(), false), "a\nb");
}

#[test]
fn text_without_shared_indentation_stays_as_it_is() {
    assert_eq!(trim_multiline("a\n  b\n".to_string(), false), "a\n  b\n");
    assert_eq!(trim_multiline("".to_string(), true), "");
    assert_eq!(trim_multiline("single".to_string(), true), "single");
    assert_eq!(trim_multiline("x\ny".to_string(), true), "x\ny");
}

#[test]
fn trimmed_text_ends_lines_with_line_feeds_only() {
    assert_eq!(trim_multiline("  a\r\n  b\n".to_string(), false), "a\nb");
}

#[test]
fn block_snippets_keep_their_first_line() {
    let text = "    if x {\n        y();\n    }";
    let source = src(text);
    assert_eq!(snippet_block(&source, Span::new(4, text.len()), ".."), "if x {\n    y();\n}");
    assert_eq!(snippet_block(&source, Span::new(4, 999), ".."), "..");
}

#[test]
fn expressions_are_written_as_blocks() {
    let text = "f(x) { g() }";
    let source = src(text);
    let plain = Tree::leaf(Node::expr(1, Span::new(0, 4), ExprKind::Call));
    let block = Tree::leaf(Node::expr(2, Span::new(5, 12), ExprKind::Block));
    assert_eq!(expr_block(&source, &plain, 0, None, ".."), "{ f(x) }");
    assert_eq!(expr_block(&source, &block, 0, None, ".."), "{ g() }");
    assert_eq!(expr_block(&source, &plain, 0, Some("h()".to_string()), ".."), "{\nf(x);\nh()\n}");
    assert_eq!(expr_block(&source, &block, 0, Some(" else".to_string()), ".."), "{ g() } else");
}

fn with_expansions(text: &str) -> SourceMap {
    let mut map = src(text);
    // 0: `outer!` called in the source as written, defined at 0..11.
    map.expansions.push(ExpnInfo {
        call_site: Span::new(20, 30),
        callee: NameAndSpan { format: ExpnFormat::MacroBang, name: "outer".to_string(), span: Some(Span::new(0, 11)) },
    });
    // 1: `inner!` called inside the expansion of `outer!`, defined nowhere
    // in the source.
    map.expansions.push(ExpnInfo {
        call_site: Span { lo: 22, hi: 28, expn_id: 0 },
        callee: NameAndSpan { format: ExpnFormat::MacroBang, name: "inner".to_string(), span: None },
    });
    // 2: an attribute expanded by a plugin.
    map.expansions.push(ExpnInfo {
        call_site: Span::new(40, 45),
        callee: NameAndSpan { format: ExpnFormat::MacroAttribute, name: "derive".to_string(), span: Some(Span::new(0, 11)) },
    });
    map
}

#[test]
fn macro_origin_is_read_from_the_expansion_record() {
    let map = with_expansions("macro_rules! outer { () => {} } outer!(); struct S;");
    let written = Span::new(1, 2);
    let from_outer = Span { lo: 1, hi: 2, expn_id: 0 };
    let from_inner = Span { lo: 1, hi: 2, expn_id: 1 };
    let from_attr = Span { lo: 1, hi: 2, expn_id: 2 };
    assert_eq!(written.expn_id, NO_EXPANSION);
    assert!(!in_macro(&map, written));
    assert!(in_macro(&map, from_outer));
    assert!(!in_external_macro(&map, written));
    // `outer!` is defined by `macro_rules` in this source.
    assert!(!in_external_macro(&map, from_outer));
    assert!(in_external_macro(&map, from_inner));
    assert!(in_external_macro(&map, from_attr));
    assert!(differing_macro_contexts(written, from_outer));
    assert!(!differing_macro_contexts(from_outer, from_outer));
}

#[test]
fn locally_defined_macro_must_start_with_macro_rules() {
    let mut map = src("fn outer() {}");
    map.expansions.push(ExpnInfo {
        call_site: Span::new(0, 1),
        callee: NameAndSpan { format: ExpnFormat::MacroBang, name: "outer".to_string(), span: Some(Span::new(0, 13)) },
    });
    assert!(in_external_macro(&map, Span { lo: 0, hi: 1, expn_id: 0 }));
}

#[test]
fn expansion_of_a_macro_is_found_through_other_macros() {
    let map = with_expansions("macro_rules! outer { () => {} } outer!(); struct S;");
    let from_inner = Span { lo: 1, hi: 2, expn_id: 1 };
    assert_eq!(is_expn_of(&map, from_inner, "inner"), Some(Span { lo: 22, hi: 28, expn_id: 0 }));
    assert_eq!(is_expn_of(&map, from_inner, "outer"), Some(Span::new(20, 30)));
    assert_eq!(is_expn_of(&map, from_inner, "other"), None);
    assert_eq!(is_direct_expn_of(&map, from_inner, "inner"), Some(Span { lo: 22, hi: 28, expn_id: 0 }));
    assert_eq!(is_direct_expn_of(&map, from_inner, "outer"), None);
    assert_eq!(is_expn_of(&map, Span::new(1, 2), "outer"), None);
}

#[test]
fn expansions_that_call_each_other_end_the_search() {
    let mut map = src("");
    map.expansions.push(ExpnInfo {
        call_site: Span { lo: 0, hi: 0, expn_id: 1 },
        callee: NameAndSpan { format: ExpnFormat::MacroBang, name: "a".to_string(), span: None },
    });
    map.expansions.push(ExpnInfo {
        call_site: Span { lo: 0, hi: 0, expn_id: 0 },
        callee: NameAndSpan { format: ExpnFormat::MacroBang, name: "b".to_string(), span: None },
    });
    assert_eq!(is_expn_of(&map, Span { lo: 0, hi: 0, expn_id: 0 }, "c"), None);
}

#[test]
fn extents_form_a_partial_order() {
    let mut scopes = ScopeTree::new();
    let root = scopes.add_scope(None);
    let left = scopes.add_scope(Some(root));
    let right = scopes.add_scope(Some(root));
    let deep = scopes.add_scope(Some(left));
    assert!(scopes.is_subscope_of(deep, deep));
    assert!(scopes.is_subscope_of(deep, left));
    assert!(scopes.is_subscope_of(deep, root));
    assert!(!scopes.is_subscope_of(deep, right));
    assert!(!scopes.is_subscope_of(left, deep));
    assert!(!scopes.is_subscope_of(root, left));
    assert!(!scopes.is_subscope_of(left, right));
    assert!(!scopes.is_subscope_of(deep, 17));
    assert!(scopes.is_subscope_of(17, 17));
    scopes.bind(7, left);
    scopes.bind(8, deep);
    scopes.bind(7, right);
    assert_eq!(scopes.var_scope(7), Some(right));
    assert_eq!(scopes.var_scope(8), Some(deep));
    assert_eq!(scopes.var_scope(9), None);
}

#[test]
fn extent_with_an_unknown_parent_is_outermost() {
    let mut scopes = ScopeTree::new();
    let a = scopes.add_scope(Some(5));
    assert_eq!(a, 0);
    assert_eq!(scopes.parents, vec![None]);
    // A parent entry that does not name an earlier extent counts as none.
    let cyclic = ScopeTree { parents: vec![Some(1), Some(0)], vars: Vec::new() };
    assert!(!cyclic.is_subscope_of(0, 1));
    assert!(cyclic.is_subscope_of(1, 0));
}

#[test]
fn types_are_known_by_their_paths() {
    let option = Ty::Adt { path: "core::option::Option".to_string(), args: vec![Ty::Int], copy: true };
    assert!(match_type(&option, "core::option::Option"));
    assert!(!match_type(&option, "core::result::Result"));
    assert!(!match_type(&Ty::Bool, "core::option::Option"));
    assert!(match_def_path("a::b", "a::b"));
    assert!(!match_def_path("a::b", "a::c"));
    let nested = Ty::Ref(Box::new(Ty::Ref(Box::new(Ty::Uint))));
    assert_eq!(walk_ptrs_ty(&nested), &Ty::Uint);
    assert_eq!(walk_ptrs_ty_depth(&nested), (&Ty::Uint, 2));
    assert_eq!(walk_ptrs_ty_depth(&Ty::Bool), (&Ty::Bool, 0));
    assert!(Ty::Int.is_integral() && Ty::Uint.is_integral() && !Ty::Bool.is_integral());
    assert!(Ty::Bool.is_bool() && !Ty::Int.is_bool());
    assert!(type_is_unsafe_function(&Ty::FnDef { is_unsafe: true }));
    assert!(type_is_unsafe_function(&Ty::FnPtr { is_unsafe: true }));
    assert!(!type_is_unsafe_function(&Ty::FnPtr { is_unsafe: false }));
    assert!(!type_is_unsafe_function(&Ty::Int));
    assert!(is_copy(&Ty::Int));
    assert!(is_copy(&option));
    assert!(is_copy(&Ty::Array(Box::new(Ty::Int), 4)));
    assert!(!is_copy(&Ty::Array(Box::new(Ty::Other), 4)));
    assert!(!is_copy(&Ty::Slice(Box::new(Ty::Int))));
    assert!(!is_copy(&Ty::Adt { path: "collections::vec::Vec".to_string(), args: vec![], copy: false }));
}

fn sugg_for(text: &str, kind: ExprKind) -> Sugg {
    let tree = Tree::leaf(Node::expr(1, Span::new(0, text.chars().count()), kind));
    Sugg::hir(&src(text), &tree, 0, "..")
}

#[test]
fn suggestions_are_parenthesized_where_needed() {
    assert_eq!(sugg_for("n", ExprKind::Other).plus_one().text, "n + 1");
    assert_eq!(sugg_for("a + b", ExprKind::Binary(BinOp::Add)).plus_one().text, "a + b + 1");
    assert_eq!(sugg_for("a - b", ExprKind::Binary(BinOp::Sub)).plus_one().text, "(a - b) + 1");
    assert_eq!(sugg_for("a * b", ExprKind::Binary(BinOp::Mul)).plus_one().text, "a * b + 1");
    assert_eq!(sugg_for("a << b", ExprKind::Binary(BinOp::Shl)).plus_one().text, "(a << b) + 1");
    assert_eq!(sugg_for("a as u8", ExprKind::Cast).plus_one().text, "a as u8 + 1");
    assert_eq!(sugg_for("a = b", ExprKind::Assign).plus_one().text, "(a = b) + 1");
    assert_eq!(sugg_for("&a", ExprKind::AddrOf(Mutability::Immutable)).plus_one().text, "&a + 1");
    assert_eq!(sugg_for("x", ExprKind::Other).not().text, "!x");
    assert_eq!(sugg_for("a && b", ExprKind::Binary(BinOp::And)).not().text, "!(a && b)");
    assert_eq!(sugg_for("-a", ExprKind::Unary).deref().text, "*(-a)");
    assert_eq!(sugg_for("x", ExprKind::Other).deref().text, "*x");
    assert_eq!(sugg_for("x", ExprKind::Other).maybe_par().text, "x");
    assert_eq!(sugg_for("if c { a } else { b }", ExprKind::If).maybe_par().text, "(if c { a } else { b })");
    assert_eq!(sugg_for("x", ExprKind::Other).plus_one().kind, SuggKind::BinOp(AssocOp::Binary(BinOp::Add)));
    let missing = Tree::leaf(Node::expr(1, Span::new(5, 9), ExprKind::Other));
    assert_eq!(Sugg::hir(&src("x"), &missing, 0, "<count>").plus_one().text, "<count> + 1");
}

#[test]
fn operators_bind_by_precedence() {
    assert!(precedence(AssocOp::Binary(BinOp::Mul)) > precedence(AssocOp::Binary(BinOp::Add)));
    assert_eq!(precedence(AssocOp::Binary(BinOp::Add)), precedence(AssocOp::Binary(BinOp::Sub)));
    assert!(precedence(AssocOp::Binary(BinOp::Add)) > precedence(AssocOp::Binary(BinOp::Shl)));
    assert!(precedence(AssocOp::Binary(BinOp::Eq)) > precedence(AssocOp::Binary(BinOp::And)));
    assert!(precedence(AssocOp::Binary(BinOp::And)) > precedence(AssocOp::Binary(BinOp::Or)));
    assert!(precedence(AssocOp::Binary(BinOp::Or)) > precedence(AssocOp::Assign));
    assert_eq!(precedence(AssocOp::As), 14);
}

#[test]
fn diagnostics_carry_what_they_are_given() {
    let at = Span::new(1, 2);
    let plain = span_lint(Lint::EmptyLoop, at, "m".to_string());
    assert_eq!((plain.lint, plain.span, plain.message.as_str()), (Lint::EmptyLoop, at, "m"));
    assert!(plain.children.is_empty());
    let helped = span_help_and_lint(Lint::EmptyLoop, at, "m".to_string(), "h".to_string());
    assert_eq!(helped.children.len(), 1);
    assert_eq!(helped.children[0].level, SubLevel::Help);
    assert_eq!(helped.children[0].message, "h");
    assert_eq!(helped.children[0].span, None);
    let noted = span_note_and_lint(Lint::EmptyLoop, at, "m".to_string(), Span::new(5, 6), "n".to_string());
    assert_eq!(noted.children[0].level, SubLevel::Note);
    assert_eq!(noted.children[0].span, Some(Span::new(5, 6)));
    let same = span_note_and_lint(Lint::EmptyLoop, at, "m".to_string(), at, "n".to_string());
    assert_eq!(same.children[0].span, None);
    let suggested =
        span_lint_and_then(Lint::EmptyLoop, at, "m".to_string(), span_suggestion(at, "try".to_string(), "x".to_string()));
    assert_eq!(suggested.children[0].replacements, vec![Replacement { span: at, text: "x".to_string() }]);
    let two = multispan_sugg(
        "both".to_string(),
        Replacement { span: at, text: "a".to_string() },
        Replacement { span: Span::new(3, 4), text: "b".to_string() },
    );
    assert_eq!(two.replacements.len(), 2);
    assert_eq!(two.message, "both");
    assert_eq!(two.span, None);
}

#[test]
fn lint_levels_take_the_last_setting() {
    let mut levels = Levels { settings: Vec::new() };
    assert_eq!(levels.current_level(Lint::MatchBool), Level::Warn);
    assert_eq!(levels.current_level(Lint::SingleMatchElse), Level::Allow);
    levels.settings.push((Lint::MatchBool, Level::Deny));
    levels.settings.push((Lint::EmptyLoop, Level::Allow));
    levels.settings.push((Lint::MatchBool, Level::Allow));
    assert_eq!(levels.current_level(Lint::MatchBool), Level::Allow);
    assert_eq!(levels.current_level(Lint::EmptyLoop), Level::Allow);
    assert_eq!(levels.current_level(Lint::ForKvMap), Level::Warn);
}

#[test]
fn text_helpers_compare_by_characters() {
    assert!(text_eq("abc", "abc"));
    assert!(!text_eq("abc", "abd"));
    assert!(!text_eq("abc", "ab"));
    assert!(text_eq("", ""));
    assert!(text_eq("héllo", "héllo"));
    assert!(starts_with("macro_rules! x", "macro_rules"));
    assert!(!starts_with("macro", "macro_rules"));
    assert!(starts_with("x", ""));
    assert!(ends_with("dylib", "lib"));
    assert!(!ends_with("bin", "lib"));
    assert!(!ends_with("ib", "lib"));
    assert_eq!(path_to_string(&vec!["Cow".to_string(), "Owned".to_string()]), "Cow::Owned");
    assert_eq!(path_to_string(&vec!["None".to_string()]), "None");
    assert_eq!(path_to_string(&Vec::new()), "");
}

#[test]
fn numbers_are_read_from_decimal_text() {
    assert_eq!(parse_u64("0"), Some(0));
    assert_eq!(parse_u64("25"), Some(25));
    assert_eq!(parse_u64("+25"), Some(25));
    assert_eq!(parse_u64("007"), Some(7));
    assert_eq!(parse_u64("18446744073709551615"), Some(u64::MAX));
    assert_eq!(parse_u64("18446744073709551616"), None);
    assert_eq!(parse_u64("99999999999999999999999"), None);
    assert_eq!(parse_u64(""), None);
    assert_eq!(parse_u64("+"), None);
    assert_eq!(parse_u64("-1"), None);
    assert_eq!(parse_u64("12a"), None);
    assert_eq!(parse_u64(" 12"), None);
    for text in ["0", "25", "+25", "", "+", "-1", "12a", "18446744073709551616"] {
        assert_eq!(parse_u64(text), text.parse::<u64>().ok());
    }
}

fn limit_attr(name: &str, value: Lit, doc: bool, at: usize) -> Attribute {
    Attribute {
        span: Span::new(at, at + 1),
        is_sugared_doc: doc,
        value: MetaItem { span: Span::new(at, at + 5), kind: MetaItemKind::NameValue(name.to_string(), value) },
    }
}

#[test]
fn limits_are_read_from_attributes() {
    let attrs = vec![
        limit_attr("cyclomatic_complexity", Lit::Str("30".to_string()), false, 0),
        limit_attr("other", Lit::Str("5".to_string()), false, 10),
        limit_attr("cyclomatic_complexity", Lit::Str("many".to_string()), false, 20),
        limit_attr("cyclomatic_complexity", Lit::Str("7".to_string()), true, 30),
        limit_attr("cyclomatic_complexity", Lit::Str("8".to_string()), false, 40),
    ];
    let (values, errors) = parse_attrs(&attrs, "cyclomatic_complexity");
    assert_eq!(values, vec![30, 8]);
    assert_eq!(errors, vec![Span::new(20, 25)]);
}

#[test]
fn limit_stack_follows_the_attributes() {
    let mut stack = LimitStack::new(25);
    assert_eq!(stack.limit(), 25);
    let outer = vec![limit_attr("limit", Lit::Str("30".to_string()), false, 0)];
    let inner = vec![
        limit_attr("limit", Lit::Str("40".to_string()), false, 0),
        limit_attr("limit", Lit::Str("50".to_string()), false, 0),
    ];
    assert!(stack.push_attrs(&outer, "limit").is_empty());
    assert_eq!(stack.limit(), 30);
    assert!(stack.push_attrs(&inner, "limit").is_empty());
    assert_eq!(stack.limit(), 50);
    // Popping what is not on top changes nothing.
    assert!(!stack.pop_attrs(&outer, "limit"));
    assert_eq!(stack.limit(), 50);
    assert!(stack.pop_attrs(&inner, "limit"));
    assert_eq!(stack.limit(), 30);
    assert!(stack.pop_attrs(&outer, "limit"));
    assert_eq!(stack.limit(), 25);
    // The first limit is never popped.
    let first = vec![limit_attr("limit", Lit::Str("25".to_string()), false, 0)];
    assert!(!stack.pop_attrs(&first, "limit"));
    assert_eq!(stack.limit(), 25);
    assert!(stack.pop_attrs(&Vec::new(), "limit"));
    let bad = vec![limit_attr("limit", Lit::Str("x".to_string()), false, 3)];
    assert_eq!(stack.push_attrs(&bad, "limit"), vec![Span::new(3, 8)]);
    assert_eq!(stack.limit(), 25);
}

fn strings(items: &[&str]) -> Vec<String> {
    items.iter().map(|s| s.to_string()).collect()
}

#[test]
fn cargo_is_run_with_the_flags_for_the_compiler() {
    assert_eq!(
        process_args(strings(&["--lib", "--release"]), "target/debug/deps", "/sys"),
        strings(&["rustc", "--lib", "--release", "--", "-L", "target/debug/deps", "--sysroot", "/sys", "-Zno-trans"])
    );
    assert_eq!(
        process_args(strings(&["--bin", "x", "--", "-Dwarnings"]), "deps", "/sys"),
        strings(&["rustc", "--bin", "x", "--", "-Dwarnings", "-L", "deps", "--sysroot", "/sys", "-Zno-trans"])
    );
    assert_eq!(
        process_args(Vec::new(), "d", "s"),
        strings(&["rustc", "--", "-L", "d", "--sysroot", "s", "-Zno-trans"])
    );
}

#[test]
fn exit_of_cargo_is_passed_on() {
    assert_eq!(process_result(true, Some(0)), Ok(()));
    assert_eq!(process_result(true, None), Ok(()));
    assert_eq!(process_result(false, Some(101)), Err(101));
    assert_eq!(process_result(false, None), Err(-1));
}

#[test]
fn compiler_gets_a_system_root_unless_it_has_one() {
    assert_eq!(
        rustc_args(strings(&["clippy", "a.rs"]), "/sys".to_string()),
        strings(&["clippy", "a.rs", "--sysroot", "/sys"])
    );
    assert_eq!(
        rustc_args(strings(&["clippy", "--sysroot", "/own"]), "/sys".to_string()),
        strings(&["clippy", "--sysroot", "/own"])
    );
    assert!(runs_lints(&strings(&["a.rs", "-Zno-trans"])));
    assert!(!runs_lints(&strings(&["a.rs", "-Zno-tran"])));
    assert!(contains_arg(&strings(&["--"]), "--"));
    assert!(!contains_arg(&Vec::new(), "--"));
}

#[test]
fn targets_are_chosen_by_their_kind() {
    assert_eq!(choose_target(&strings(&["lib"]), "x"), TargetChoice::Lib);
    assert_eq!(choose_target(&strings(&["dylib"]), "x"), TargetChoice::Lib);
    assert_eq!(choose_target(&strings(&["bin", "example"]), "x"), TargetChoice::Lib);
    assert_eq!(choose_target(&strings(&["bin"]), "x"), TargetChoice::Bin("x".to_string()));
    assert_eq!(choose_target(&strings(&["test"]), "x"), TargetChoice::Skip);
    assert_eq!(choose_target(&Vec::new(), "x"), TargetChoice::NoKind);
}
