use clippy_lints::context::LateContext;
use clippy_lints::diagnostics::{Defect, Diagnostic, Level, Levels, Lint, SubLevel};
use clippy_lints::engine::lint_tree;
use clippy_lints::matches::{
    check_match_bool, check_match_ref_pats, check_overlapping_arms, check_single_match, MatchPass,
};
use clippy_lints::node::{
    BindingMode, Def, ExprKind, Lit, MatchSource, Mutability, Node, PatKind, StmtKind,
};
use clippy_lints::scope::ScopeTree;
use clippy_lints::source::{ExpnFormat, ExpnInfo, NameAndSpan, SourceMap};
use clippy_lints::span::Span;
use clippy_lints::tree::Tree;
use clippy_lints::ty::Ty;

fn nth_at(text: &str, needle: &str, n: usize) -> Span {
    let mut from = 0;
    let mut found = None;
    for _ in 0..=n {
        let at = text[from..].find(needle).expect("the text holds the needle") + from;
        found = Some(at);
        from = at + 1;
    }
    let lo = text[..found.unwrap()].chars().count();
    Span::new(lo, lo + needle.chars().count())
}

fn at(text: &str, needle: &str) -> Span {
    nth_at(text, needle, 0)
}

fn cx_of(text: &str) -> LateContext {
    LateContext {
        source: SourceMap { src: text.to_string(), expansions: Vec::new() },
        scopes: ScopeTree::new(),
        levels: Levels { settings: Vec::new() },
    }
}

fn name(id: u32, sp: Span, text: &str, ty: Ty) -> Tree {
    Tree::leaf(Node::typed(
        id,
        sp,
        ExprKind::Path { qself: false, segments: vec![text.to_string()], res: Def::Local(900) },
        ty,
    ))
}

fn call(id: u32, sp: Span) -> Tree {
    Tree::leaf(Node::expr(id, sp, ExprKind::Other))
}

fn unit(id: u32, sp: Span) -> Tree {
    Tree::leaf(Node::expr(id, sp, ExprKind::Tup))
}

fn braces(id: u32, sp: Span, inner: Vec<Tree>) -> Tree {
    Tree::branch(Node::expr(id, sp, ExprKind::Block), vec![Tree::branch(Node::block(id + 1000, sp), inner)])
}

fn arm_of(id: u32, sp: Span, pat: Tree, body: Tree) -> Tree {
    Tree::branch(Node::arm(id, sp, 1, false), vec![pat, body])
}

fn the_match(id: u32, sp: Span, source: MatchSource, scrutinee: Tree, arms: Vec<Tree>) -> Tree {
    let mut parts = vec![scrutinee];
    parts.extend(arms);
    Tree::branch(Node::expr(id, sp, ExprKind::Match(source)), parts)
}

fn wildcard(id: u32, sp: Span) -> Tree {
    Tree::leaf(Node::pat(id, sp, PatKind::Wild))
}

fn constructor(id: u32, sp: Span, path: &[&str], inner: Vec<Tree>) -> Tree {
    Tree::branch(
        Node::pat(id, sp, PatKind::TupleStruct { path: path.iter().map(|s| s.to_string()).collect() }),
        inner,
    )
}

fn by_name(id: u32, sp: Span, text: &str) -> Tree {
    Tree::leaf(Node::pat(
        id,
        sp,
        PatKind::Binding {
            mode: BindingMode::ByValue(Mutability::Immutable),
            name: text.to_string(),
            has_sub: false,
        },
    ))
}

fn option_ty() -> Ty {
    Ty::Adt { path: "core::option::Option".to_string(), args: vec![Ty::Int], copy: true }
}

fn literal_pat(id: u32, sp: Span, value: i128) -> Tree {
    Tree::branch(
        Node::pat(id, sp, PatKind::Lit),
        vec![Tree::leaf(Node::integral(id + 500, sp, ExprKind::Lit(Lit::Int(value as u64)), value))],
    )
}

fn range_pat(id: u32, sp: Span, lo: i128, hi: i128) -> Tree {
    Tree::branch(
        Node::pat(id, sp, PatKind::Range),
        vec![
            Tree::leaf(Node::integral(id + 500, sp, ExprKind::Lit(Lit::Int(lo as u64)), lo)),
            Tree::leaf(Node::integral(id + 501, sp, ExprKind::Lit(Lit::Int(hi as u64)), hi)),
        ],
    )
}

/// `match x { <first> => a(), <second> => b(), _ => () }` on an integer.
fn integer_match(text: &str, first: Tree, second: Tree) -> Tree {
    the_match(
        1,
        at(text, text),
        MatchSource::Normal,
        name(2, at(text, "x"), "x", Ty::Int),
        vec![
            arm_of(3, at(text, "a()"), first, call(4, at(text, "a()"))),
            arm_of(5, at(text, "b()"), second, call(6, at(text, "b()"))),
            arm_of(7, at(text, "_ => ()"), wildcard(8, at(text, "_")), unit(9, at(text, "()"))),
        ],
    )
}

fn overlap_findings(text: &str, tree: &Tree) -> Vec<Diagnostic> {
    let mut out = Vec::new();
    check_overlapping_arms(tree, 0, &mut out);
    let _ = text;
    out
}

#[test]
fn overlapping_integer_arms_are_reported() {
    let text = "match x { 1...10 => a(), 5...15 => b(), _ => () }";
    let tree = integer_match(
        text,
        range_pat(10, at(text, "1...10"), 1, 10),
        range_pat(11, at(text, "5...15"), 5, 15),
    );
    let found = overlap_findings(text, &tree);
    assert_eq!(found.len(), 1);
    let d = &found[0];
    assert_eq!(d.lint, Lint::MatchOverlappingArm);
    assert_eq!(d.span, at(text, "1...10"));
    assert_eq!(d.message, "some ranges overlap");
    assert_eq!(d.children.len(), 1);
    assert_eq!(d.children[0].level, SubLevel::Note);
    assert_eq!(d.children[0].span, Some(at(text, "5...15")));
    assert_eq!(d.children[0].message, "overlaps with this");
}

#[test]
fn adjacent_integer_arms_are_not_reported() {
    let text = "match x { 1...5 => a(), 6...10 => b(), _ => () }";
    let tree = integer_match(
        text,
        range_pat(10, at(text, "1...5"), 1, 5),
        range_pat(11, at(text, "6...10"), 6, 10),
    );
    assert!(overlap_findings(text, &tree).is_empty());
}

#[test]
fn arms_sharing_an_inclusive_boundary_are_reported() {
    let text = "match x { 1...5 => a(), 5...10 => b(), _ => () }";
    let tree = integer_match(
        text,
        range_pat(10, at(text, "1...5"), 1, 5),
        range_pat(11, at(text, "5...10"), 5, 10),
    );
    let found = overlap_findings(text, &tree);
    assert_eq!(found.len(), 1);
    assert_eq!(found[0].span, at(text, "1...5"));
    assert_eq!(found[0].children[0].span, Some(at(text, "5...10")));
}

#[test]
fn literal_arm_inside_a_range_is_reported() {
    let text = "match x { 0...9 => a(), 4 => b(), _ => () }";
    let tree = integer_match(text, range_pat(10, at(text, "0...9"), 0, 9), literal_pat(11, at(text, "4"), 4));
    let found = overlap_findings(text, &tree);
    assert_eq!(found.len(), 1);
    assert_eq!(found[0].span, at(text, "0...9"));
    assert_eq!(found[0].children[0].span, Some(at(text, "4")));
}

#[test]
fn arm_with_non_constant_bound_is_passed_over() {
    let text = "match x { 1...10 => a(), N...15 => b(), _ => () }";
    let open = Tree::branch(
        Node::pat(11, at(text, "N...15"), PatKind::Range),
        vec![
            name(511, at(text, "N"), "N", Ty::Int),
            Tree::leaf(Node::integral(512, at(text, "15"), ExprKind::Lit(Lit::Int(15)), 15)),
        ],
    );
    let tree = integer_match(text, range_pat(10, at(text, "1...10"), 1, 10), open);
    assert!(overlap_findings(text, &tree).is_empty());
}

#[test]
fn guarded_arm_is_passed_over() {
    let text = "match x { 1...10 => a(), 5...15 if c => b(), _ => () }";
    let guarded = Tree::branch(
        Node::arm(5, at(text, "5...15 if c => b()"), 1, true),
        vec![
            range_pat(11, at(text, "5...15"), 5, 15),
            name(12, at(text, "c"), "c", Ty::Bool),
            call(6, at(text, "b()")),
        ],
    );
    let tree = the_match(
        1,
        at(text, text),
        MatchSource::Normal,
        name(2, at(text, "x"), "x", Ty::Int),
        vec![
            arm_of(3, at(text, "a()"), range_pat(10, at(text, "1...10"), 1, 10), call(4, at(text, "a()"))),
            guarded,
            arm_of(7, at(text, "_ => ()"), wildcard(8, at(text, "_")), unit(9, at(text, "()"))),
        ],
    );
    assert!(overlap_findings(text, &tree).is_empty());
}

#[test]
fn overlap_is_only_looked_for_on_integers() {
    let text = "match x { 1...10 => a(), 5...15 => b(), _ => () }";
    let tree = the_match(
        1,
        at(text, text),
        MatchSource::Normal,
        name(2, at(text, "x"), "x", Ty::Other),
        vec![
            arm_of(3, at(text, "a()"), range_pat(10, at(text, "1...10"), 1, 10), call(4, at(text, "a()"))),
            arm_of(5, at(text, "b()"), range_pat(11, at(text, "5...15"), 5, 15), call(6, at(text, "b()"))),
        ],
    );
    assert!(overlap_findings(text, &tree).is_empty());
}

/// `match x { Some(y) => <body>, <other> => <else> }` on an `Option`.
fn two_arm_match(text: &str, body: Tree, other: Tree, els: Tree, ty: Ty) -> Tree {
    the_match(
        1,
        at(text, text),
        MatchSource::Normal,
        name(2, at(text, "x"), "x", ty),
        vec![
            arm_of(
                3,
                at(text, "Some(y)"),
                constructor(4, at(text, "Some(y)"), &["Some"], vec![by_name(5, at(text, "y"), "y")]),
                body,
            ),
            arm_of(7, at(text, "=>"), other, els),
        ],
    )
}

#[test]
fn match_with_wildcard_and_unit_suggests_if_let() {
    let text = "match x { Some(y) => use_it(y), _ => () }";
    let tree = two_arm_match(
        text,
        call(6, at(text, "use_it(y)")),
        wildcard(8, at(text, "_")),
        unit(9, at(text, "()")),
        option_ty(),
    );
    let cx = cx_of(text);
    let mut out = Vec::new();
    check_single_match(&cx, &tree, 0, &mut out);
    assert_eq!(out.len(), 1);
    let d = &out[0];
    assert_eq!(d.lint, Lint::SingleMatch);
    assert_eq!(d.span, at(text, text));
    assert_eq!(
        d.message,
        "you seem to be trying to use match for destructuring a single pattern. Consider using `if let`"
    );
    assert_eq!(d.children[0].message, "try this");
    assert_eq!(d.children[0].replacements[0].span, at(text, text));
    assert_eq!(d.children[0].replacements[0].text, "if let Some(y) = x { use_it(y) }");
}

#[test]
fn match_with_wildcard_and_block_suggests_if_let_else() {
    let text = "match x { Some(y) => { use_it(y) }, _ => { other() } }";
    let tree = two_arm_match(
        text,
        braces(6, at(text, "{ use_it(y) }"), vec![call(60, at(text, "use_it(y)"))]),
        wildcard(8, at(text, "_")),
        braces(9, at(text, "{ other() }"), vec![call(90, at(text, "other()"))]),
        option_ty(),
    );
    let cx = cx_of(text);
    let mut out = Vec::new();
    check_single_match(&cx, &tree, 0, &mut out);
    assert_eq!(out.len(), 1);
    assert_eq!(out[0].lint, Lint::SingleMatchElse);
    assert_eq!(
        out[0].children[0].replacements[0].text,
        "if let Some(y) = x { use_it(y) } else { other() }"
    );
}

#[test]
fn match_whose_second_arm_is_an_expression_is_left_alone() {
    let text = "match x { Some(y) => use_it(y), _ => other() }";
    let tree = two_arm_match(
        text,
        call(6, at(text, "use_it(y)")),
        wildcard(8, at(text, "_")),
        call(9, at(text, "other()")),
        option_ty(),
    );
    let cx = cx_of(text);
    let mut out = Vec::new();
    check_single_match(&cx, &tree, 0, &mut out);
    assert!(out.is_empty());
}

#[test]
fn match_on_option_with_none_arm_suggests_if_let() {
    let text = "match x { Some(y) => use_it(y), None => () }";
    let tree = two_arm_match(
        text,
        call(6, at(text, "use_it(y)")),
        Tree::leaf(Node::pat(8, at(text, "None"), PatKind::Path { qself: false, path: vec!["None".to_string()] })),
        unit(9, at(text, "()")),
        option_ty(),
    );
    let cx = cx_of(text);
    let mut out = Vec::new();
    check_single_match(&cx, &tree, 0, &mut out);
    assert_eq!(out.len(), 1);
    assert_eq!(out[0].lint, Lint::SingleMatch);
    assert_eq!(out[0].children[0].replacements[0].text, "if let Some(y) = x { use_it(y) }");
}

#[test]
fn none_arm_on_another_type_is_left_alone() {
    let text = "match x { Some(y) => use_it(y), None => () }";
    let tree = two_arm_match(
        text,
        call(6, at(text, "use_it(y)")),
        Tree::leaf(Node::pat(8, at(text, "None"), PatKind::Path { qself: false, path: vec!["None".to_string()] })),
        unit(9, at(text, "()")),
        Ty::Adt { path: "my::Maybe".to_string(), args: vec![], copy: false },
    );
    let cx = cx_of(text);
    let mut out = Vec::new();
    check_single_match(&cx, &tree, 0, &mut out);
    assert!(out.is_empty());
}

#[test]
fn err_arm_with_a_binding_inside_is_left_alone() {
    let text = "match x { Some(y) => use_it(y), Err(e) => () }";
    let result = Ty::Adt { path: "core::result::Result".to_string(), args: vec![], copy: false };
    let tree = two_arm_match(
        text,
        call(6, at(text, "use_it(y)")),
        constructor(8, at(text, "Err(e)"), &["Err"], vec![by_name(80, at(text, "e"), "e")]),
        unit(9, at(text, "()")),
        result,
    );
    let cx = cx_of(text);
    let mut out = Vec::new();
    check_single_match(&cx, &tree, 0, &mut out);
    assert!(out.is_empty());
}

#[test]
fn err_arm_with_a_wildcard_inside_suggests_if_let() {
    let text = "match x { Some(y) => use_it(y), Err(_) => () }";
    let result = Ty::Adt { path: "core::result::Result".to_string(), args: vec![], copy: false };
    let tree = two_arm_match(
        text,
        call(6, at(text, "use_it(y)")),
        constructor(8, at(text, "Err(_)"), &["Err"], vec![wildcard(80, at(text, "_"))]),
        unit(9, at(text, "()")),
        result,
    );
    let cx = cx_of(text);
    let mut out = Vec::new();
    check_single_match(&cx, &tree, 0, &mut out);
    assert_eq!(out.len(), 1);
    assert_eq!(out[0].lint, Lint::SingleMatch);
}

#[test]
fn cow_arm_by_its_qualified_name_suggests_if_let() {
    let text = "match x { Some(y) => use_it(y), Cow::Owned(_) => () }";
    let cow = Ty::Adt { path: "collections::borrow::Cow".to_string(), args: vec![], copy: false };
    let tree = two_arm_match(
        text,
        call(6, at(text, "use_it(y)")),
        constructor(8, at(text, "Cow::Owned(_)"), &["Cow", "Owned"], vec![wildcard(80, at(text, "_"))]),
        unit(9, at(text, "()")),
        cow,
    );
    let cx = cx_of(text);
    let mut out = Vec::new();
    check_single_match(&cx, &tree, 0, &mut out);
    assert_eq!(out.len(), 1);
}

/// `match c { <first> => <a>, <second> => <b> }` on a boolean.
fn bool_match(text: &str, first: bool, a: Tree, b: Tree) -> Tree {
    let lit = |id: u32, value: bool, sp: Span| {
        Tree::branch(
            Node::pat(id, sp, PatKind::Lit),
            vec![Tree::leaf(Node::typed(id + 500, sp, ExprKind::Lit(Lit::Bool(value)), Ty::Bool))],
        )
    };
    let (one, two) = if first { ("true", "false") } else { ("false", "true") };
    the_match(
        1,
        at(text, text),
        MatchSource::Normal,
        name(2, at(text, "c"), "c", Ty::Bool),
        vec![
            arm_of(3, at(text, one), lit(4, first, at(text, one)), a),
            arm_of(5, at(text, two), lit(6, !first, at(text, two)), b),
        ],
    )
}

fn bool_suggestion(text: &str, tree: &Tree) -> Option<String> {
    let cx = cx_of(text);
    let mut out = Vec::new();
    check_match_bool(&cx.source, tree, 0, &mut out);
    assert_eq!(out.len(), 1);
    assert_eq!(out[0].lint, Lint::MatchBool);
    assert_eq!(out[0].message, "you seem to be trying to match on a boolean expression");
    assert_eq!(out[0].span, at(text, text));
    match out[0].children.first() {
        Some(child) => {
            assert_eq!(child.message, "consider using an if/else expression");
            Some(child.replacements[0].text.clone())
        }
        None => None,
    }
}

#[test]
fn boolean_match_with_two_branches_becomes_if_else() {
    let text = "match c { true => yes(), false => no() }";
    let tree = bool_match(text, true, call(10, at(text, "yes()")), call(11, at(text, "no()")));
    assert_eq!(bool_suggestion(text, &tree), Some("if c { yes() } else { no() }".to_string()));
}

#[test]
fn boolean_match_written_false_first_is_reordered() {
    let text = "match c { false => no(), true => yes() }";
    let tree = bool_match(text, false, call(10, at(text, "no()")), call(11, at(text, "yes()")));
    assert_eq!(bool_suggestion(text, &tree), Some("if c { yes() } else { no() }".to_string()));
}

#[test]
fn boolean_match_with_only_true_branch_becomes_if() {
    let text = "match c { true => yes(), false => () }";
    let tree = bool_match(text, true, call(10, at(text, "yes()")), unit(11, at(text, "()")));
    assert_eq!(bool_suggestion(text, &tree), Some("if c { yes() }".to_string()));
}

#[test]
fn boolean_match_with_only_false_branch_negates_the_condition() {
    let text = "match c { true => (), false => no() }";
    let tree = bool_match(text, true, unit(10, at(text, "()")), call(11, at(text, "no()")));
    assert_eq!(bool_suggestion(text, &tree), Some("if !c { no() }".to_string()));
}

#[test]
fn negated_condition_is_parenthesized_where_it_is_an_operation() {
    let text = "match a == b { true => (), false => no() }";
    let lit = |id: u32, value: bool, sp: Span| {
        Tree::branch(
            Node::pat(id, sp, PatKind::Lit),
            vec![Tree::leaf(Node::typed(id + 500, sp, ExprKind::Lit(Lit::Bool(value)), Ty::Bool))],
        )
    };
    let scrutinee = Tree::branch(
        Node::typed(2, at(text, "a == b"), ExprKind::Binary(clippy_lints::node::BinOp::Eq), Ty::Bool),
        vec![name(20, at(text, "a"), "a", Ty::Int), name(21, at(text, "b"), "b", Ty::Int)],
    );
    let tree = the_match(
        1,
        at(text, text),
        MatchSource::Normal,
        scrutinee,
        vec![
            arm_of(3, at(text, "true"), lit(4, true, at(text, "true")), unit(10, at(text, "()"))),
            arm_of(5, at(text, "false"), lit(6, false, at(text, "false")), call(11, at(text, "no()"))),
        ],
    );
    assert_eq!(bool_suggestion(text, &tree), Some("if !(a == b) { no() }".to_string()));
}

#[test]
fn boolean_match_with_two_unit_branches_has_no_suggestion() {
    let text = "match c { true => (), false => {} }";
    let tree = bool_match(text, true, unit(10, at(text, "()")), braces(11, at(text, "{}"), vec![]));
    assert_eq!(bool_suggestion(text, &tree), None);
}

#[test]
fn boolean_match_with_a_wildcard_arm_has_no_suggestion() {
    let text = "match c { true => yes(), _ => no() }";
    let tree = the_match(
        1,
        at(text, text),
        MatchSource::Normal,
        name(2, at(text, "c"), "c", Ty::Bool),
        vec![
            arm_of(
                3,
                at(text, "true"),
                Tree::branch(
                    Node::pat(4, at(text, "true"), PatKind::Lit),
                    vec![Tree::leaf(Node::typed(504, at(text, "true"), ExprKind::Lit(Lit::Bool(true)), Ty::Bool))],
                ),
                call(10, at(text, "yes()")),
            ),
            arm_of(5, at(text, "_"), wildcard(6, at(text, "_")), call(11, at(text, "no()"))),
        ],
    );
    assert_eq!(bool_suggestion(text, &tree), None);
}

#[test]
fn boolean_match_with_more_arms_has_no_suggestion() {
    let text = "match c { true => yes(), false => no(), _ => () }";
    let lit = |id: u32, value: bool, sp: Span| {
        Tree::branch(
            Node::pat(id, sp, PatKind::Lit),
            vec![Tree::leaf(Node::typed(id + 500, sp, ExprKind::Lit(Lit::Bool(value)), Ty::Bool))],
        )
    };
    let tree = the_match(
        1,
        at(text, text),
        MatchSource::Normal,
        name(2, at(text, "c"), "c", Ty::Bool),
        vec![
            arm_of(3, at(text, "true"), lit(4, true, at(text, "true")), call(10, at(text, "yes()"))),
            arm_of(5, at(text, "false"), lit(6, false, at(text, "false")), call(11, at(text, "no()"))),
            arm_of(7, at(text, "_"), wildcard(8, at(text, "_")), unit(12, at(text, "()"))),
        ],
    );
    assert_eq!(bool_suggestion(text, &tree), None);
}

/// `match c { true => yes(), _ => <els> }` on a boolean.
fn bool_single_match(text: &str, els: Tree) -> Tree {
    the_match(
        1,
        at(text, text),
        MatchSource::Normal,
        name(2, at(text, "c"), "c", Ty::Bool),
        vec![
            arm_of(
                3,
                at(text, "true"),
                Tree::branch(
                    Node::pat(4, at(text, "true"), PatKind::Lit),
                    vec![Tree::leaf(Node::typed(504, at(text, "true"), ExprKind::Lit(Lit::Bool(true)), Ty::Bool))],
                ),
                call(10, at(text, "yes()")),
            ),
            arm_of(5, at(text, "_"), wildcard(6, at(text, "_")), els),
        ],
    )
}

#[test]
fn single_match_on_a_boolean_fires_like_on_any_type() {
    let text = "match c { true => yes(), _ => () }";
    let tree = bool_single_match(text, unit(11, at(text, "()")));
    let cx = cx_of(text);
    let mut out = Vec::new();
    check_single_match(&cx, &tree, 0, &mut out);
    assert_eq!(out.len(), 1);
    assert_eq!(out[0].lint, Lint::SingleMatch);
    assert_eq!(out[0].span, at(text, text));
    assert_eq!(out[0].children[0].replacements[0].text, "if let true = c { yes() }");
    // The level of the lint on boolean matches makes no difference.
    let mut allowed = cx_of(text);
    allowed.levels.settings.push((Lint::MatchBool, Level::Allow));
    let mut again = Vec::new();
    check_single_match(&allowed, &tree, 0, &mut again);
    assert_eq!(again, out);
}

#[test]
fn single_match_with_else_on_a_boolean_fires_too() {
    let text = "match c { true => yes(), _ => { no() } }";
    let tree = bool_single_match(text, braces(11, at(text, "{ no() }"), vec![call(12, at(text, "no()"))]));
    let cx = cx_of(text);
    let mut out = Vec::new();
    check_single_match(&cx, &tree, 0, &mut out);
    assert_eq!(out.len(), 1);
    assert_eq!(out[0].lint, Lint::SingleMatchElse);
    assert_eq!(out[0].children[0].replacements[0].text, "if let true = c { yes() } else { no() }");
}

#[test]
fn boolean_single_match_is_reported_by_both_detectors() {
    let text = "match c { true => yes(), _ => () }";
    let tree = bool_single_match(text, unit(11, at(text, "()")));
    let report = lint_tree(&cx_of(text), &tree);
    let lints: Vec<Lint> = report.diagnostics.iter().map(|d| d.lint).collect();
    assert_eq!(lints, vec![Lint::SingleMatch, Lint::MatchBool]);
}

fn ref_pat(id: u32, sp: Span, inner: Tree) -> Tree {
    Tree::branch(Node::pat(id, sp, PatKind::Ref), vec![inner])
}

/// `match <scrutinee> { &A => a(), &B => b(), _ => c() }`
fn ref_match(text: &str, source: MatchSource, scrutinee: Tree) -> Tree {
    the_match(
        1,
        at(text, text),
        source,
        scrutinee,
        vec![
            arm_of(3, at(text, "&A"), ref_pat(4, at(text, "&A"), by_name(40, at(text, "A"), "A")), call(5, at(text, "a()"))),
            arm_of(6, at(text, "&B"), ref_pat(7, at(text, "&B"), by_name(70, at(text, "B"), "B")), call(8, at(text, "b()"))),
            arm_of(9, at(text, "_"), wildcard(10, at(text, "_")), call(11, at(text, "c()"))),
        ],
    )
}

#[test]
fn reference_patterns_suggest_dereferencing_the_scrutinee() {
    let text = "match x { &A => a(), &B => b(), _ => c() }";
    let tree = ref_match(text, MatchSource::Normal, name(2, at(text, "x"), "x", Ty::Other));
    let cx = cx_of(text);
    let mut out = Vec::new();
    assert_eq!(check_match_ref_pats(&cx.source, &tree, 0, &mut out), Ok(()));
    assert_eq!(out.len(), 1);
    assert_eq!(out[0].lint, Lint::MatchRefPats);
    assert_eq!(out[0].message, "you don't need to add `&` to all patterns");
    assert_eq!(
        out[0].children[0].message,
        "instead of prefixing all patterns with `&`, you can dereference the expression"
    );
    assert_eq!(out[0].children[0].replacements[0].text, "match *x { .. }");
}

#[test]
fn reference_patterns_on_a_borrowed_scrutinee_suggest_dropping_the_borrow() {
    let text = "match &x { &A => a(), &B => b(), _ => c() }";
    let scrutinee = Tree::branch(
        Node::expr(2, at(text, "&x"), ExprKind::AddrOf(Mutability::Immutable)),
        vec![name(20, at(text, "x"), "x", Ty::Other)],
    );
    let tree = ref_match(text, MatchSource::IfLetDesugar { contains_else_clause: false }, scrutinee);
    let cx = cx_of(text);
    let mut out = Vec::new();
    assert_eq!(check_match_ref_pats(&cx.source, &tree, 0, &mut out), Ok(()));
    assert_eq!(out.len(), 1);
    assert_eq!(out[0].message, "you don't need to add `&` to both the expression and the patterns");
    assert_eq!(out[0].children[0].message, "try");
    assert_eq!(out[0].children[0].replacements[0].text, "if let .. = x { .. }");
}

#[test]
fn while_let_with_reference_patterns_keeps_its_form() {
    let text = "match x { &A => a(), &B => b(), _ => c() }";
    let tree = ref_match(text, MatchSource::WhileLetDesugar, name(2, at(text, "x"), "x", Ty::Other));
    let cx = cx_of(text);
    let mut out = Vec::new();
    assert_eq!(check_match_ref_pats(&cx.source, &tree, 0, &mut out), Ok(()));
    assert_eq!(out[0].children[0].replacements[0].text, "while let .. = *x { .. }");
}

#[test]
fn for_loop_match_with_reference_patterns_is_a_defect() {
    let text = "match x { &A => a(), &B => b(), _ => c() }";
    let tree = ref_match(text, MatchSource::ForLoopDesugar, name(2, at(text, "x"), "x", Ty::Other));
    let cx = cx_of(text);
    let mut out = Vec::new();
    assert_eq!(check_match_ref_pats(&cx.source, &tree, 0, &mut out), Err(Defect::ForLoopWithRefPatterns));
    assert!(out.is_empty());
    let tried = ref_match(text, MatchSource::TryDesugar, name(2, at(text, "x"), "x", Ty::Other));
    assert_eq!(check_match_ref_pats(&cx.source, &tried, 0, &mut out), Err(Defect::TryWithRefPatterns));
    let report = lint_tree(&cx, &tried);
    assert_eq!(report.defects, vec![(0, Defect::TryWithRefPatterns)]);
}

#[test]
fn patterns_that_are_only_wildcards_are_left_alone() {
    let text = "match x { _ => a(), _ => b() }";
    let tree = the_match(
        1,
        at(text, text),
        MatchSource::Normal,
        name(2, at(text, "x"), "x", Ty::Other),
        vec![
            arm_of(3, at(text, "_"), wildcard(4, at(text, "_")), call(5, at(text, "a()"))),
            arm_of(6, at(text, "_"), wildcard(7, at(text, "_")), call(8, at(text, "b()"))),
        ],
    );
    let cx = cx_of(text);
    let mut out = Vec::new();
    assert_eq!(check_match_ref_pats(&cx.source, &tree, 0, &mut out), Ok(()));
    assert!(out.is_empty());
}

#[test]
fn one_pattern_without_reference_is_enough_to_leave_the_match_alone() {
    let text = "match x { &A => a(), B => b() }";
    let tree = the_match(
        1,
        at(text, text),
        MatchSource::Normal,
        name(2, at(text, "x"), "x", Ty::Other),
        vec![
            arm_of(3, at(text, "&A"), ref_pat(4, at(text, "&A"), by_name(40, at(text, "A"), "A")), call(5, at(text, "a()"))),
            arm_of(6, at(text, "B"), by_name(7, at(text, "B"), "B"), call(8, at(text, "b()"))),
        ],
    );
    let cx = cx_of(text);
    let mut out = Vec::new();
    assert_eq!(check_match_ref_pats(&cx.source, &tree, 0, &mut out), Ok(()));
    assert!(out.is_empty());
}

#[test]
fn match_from_an_external_macro_is_not_checked() {
    let text = "match c { true => yes(), false => no() }";
    let mut tree_span = at(text, text);
    tree_span.expn_id = 0;
    let lit = |id: u32, value: bool, sp: Span| {
        Tree::branch(
            Node::pat(id, sp, PatKind::Lit),
            vec![Tree::leaf(Node::typed(id + 500, sp, ExprKind::Lit(Lit::Bool(value)), Ty::Bool))],
        )
    };
    let tree = the_match(
        1,
        tree_span,
        MatchSource::Normal,
        name(2, at(text, "c"), "c", Ty::Bool),
        vec![
            arm_of(3, at(text, "true"), lit(4, true, at(text, "true")), call(10, at(text, "yes()"))),
            arm_of(5, at(text, "false"), lit(6, false, at(text, "false")), call(11, at(text, "no()"))),
        ],
    );
    let mut cx = cx_of(text);
    // The macro's definition is not in the source: the macro is external.
    cx.source.expansions.push(ExpnInfo {
        call_site: Span::new(0, 1),
        callee: NameAndSpan { format: ExpnFormat::MacroBang, name: "check".to_string(), span: None },
    });
    let mut out = Vec::new();
    assert_eq!(MatchPass.check_expr(&cx, &tree, 0, &mut out), Ok(()));
    assert!(out.is_empty());
    // Without the expansion the boolean lint fires.
    let plain = cx_of(text);
    assert_eq!(MatchPass.check_expr(&plain, &tree, 0, &mut out), Ok(()));
    assert_eq!(out.len(), 1);
    assert_eq!(out[0].lint, Lint::MatchBool);
}

#[test]
fn match_pass_lists_its_lints() {
    assert_eq!(
        MatchPass.get_lints(),
        vec![
            Lint::SingleMatch,
            Lint::MatchRefPats,
            Lint::MatchBool,
            Lint::SingleMatchElse,
            Lint::MatchOverlappingArm
        ]
    );
}

#[test]
fn statement_around_a_match_does_not_change_what_is_found() {
    let text = "match x { 1...10 => a(), 5...15 => b(), _ => () }";
    let inner = integer_match(
        text,
        range_pat(10, at(text, "1...10"), 1, 10),
        range_pat(11, at(text, "5...15"), 5, 15),
    );
    let tree = Tree::branch(
        Node::block(100, at(text, text)),
        vec![Tree::branch(Node::stmt(101, at(text, text), StmtKind::Semi), vec![inner])],
    );
    let cx = cx_of(text);
    let report = lint_tree(&cx, &tree);
    let lints: Vec<Lint> = report.diagnostics.iter().map(|d| d.lint).collect();
    assert_eq!(lints, vec![Lint::MatchOverlappingArm]);
}
