use clippy_lints::context::LateContext;
use clippy_lints::diagnostics::{Diagnostic, Levels, Lint};
use clippy_lints::engine::{detectors_for, lint_tree, Detector, Report};
use clippy_lints::node::{
    BinOp, BindingMode, DeclKind, Def, ExprKind, ItemKind, Lit, MatchSource, Mutability, Node, PatKind,
    RangeLimits, StmtKind,
};
use clippy_lints::scope::ScopeTree;
use clippy_lints::source::SourceMap;
use clippy_lints::span::Span;
use clippy_lints::tree::Tree;
use clippy_lints::ty::Ty;

fn sp(lo: usize, hi: usize) -> Span {
    Span::new(lo, hi)
}

fn var(id: u32, span: Span, name: &str, res: Def) -> Tree {
    Tree::leaf(Node::expr(id, span, ExprKind::Path { qself: false, segments: vec![name.to_string()], res }))
}

fn lit(id: u32, span: Span, value: u64) -> Tree {
    Tree::leaf(Node::integral(id, span, ExprKind::Lit(Lit::Int(value)), value as i128))
}

fn bind(id: u32, span: Span, name: &str) -> Tree {
    Tree::leaf(Node::pat(
        id,
        span,
        PatKind::Binding {
            mode: BindingMode::ByValue(Mutability::Mutable),
            name: name.to_string(),
            has_sub: false,
        },
    ))
}

const SOURCE: &str = "fn f() { let mut i = 0; for x in 9..3 { i += 1; } loop {} match c { true => (), false => g() } }";

fn find(needle: &str) -> Span {
    let at = SOURCE.find(needle).expect("the source holds the needle");
    sp(at, at + needle.len())
}

/// A function whose body holds an explicit counter over a reversed range,
/// an empty loop and a match on a boolean.
fn program() -> Tree {
    let decl = Tree::branch(
        Node::stmt(3, find("let mut i = 0;"), StmtKind::Decl),
        vec![Tree::branch(
            Node::decl(4, find("let mut i = 0;"), DeclKind::Local { has_init: true }),
            vec![bind(5, find("i"), "i"), lit(6, find("0"), 0)],
        )],
    );
    let increment = Tree::branch(
        Node::stmt(14, find("i += 1;"), StmtKind::Semi),
        vec![Tree::branch(
            Node::expr(15, find("i += 1"), ExprKind::AssignOp(BinOp::Add)),
            vec![var(16, sp(find("i += 1").lo, find("i += 1").lo + 1), "i", Def::Local(5)), lit(17, find("1"), 1)],
        )],
    );
    let for_loop = Tree::branch(
        Node::expr(8, find("for x in 9..3 { i += 1; }"), ExprKind::ForLoop),
        vec![
            bind(9, find("x"), "x"),
            Tree::branch(
                Node::expr(
                    10,
                    find("9..3"),
                    ExprKind::Range { limits: RangeLimits::HalfOpen, has_start: true, has_end: true },
                ),
                vec![lit(11, find("9"), 9), lit(12, find("3"), 3)],
            ),
            Tree::branch(
                Node::expr(13, find("{ i += 1; }"), ExprKind::Block),
                vec![Tree::branch(Node::block(113, find("{ i += 1; }")), vec![increment])],
            ),
        ],
    );
    let empty_loop = Tree::branch(
        Node::expr(19, find("loop {}"), ExprKind::Loop),
        vec![Tree::leaf(Node::block(20, find("{}")))],
    );
    let bool_pat = |id: u32, value: bool, span: Span| {
        Tree::branch(
            Node::pat(id, span, PatKind::Lit),
            vec![Tree::leaf(Node::typed(id + 100, span, ExprKind::Lit(Lit::Bool(value)), Ty::Bool))],
        )
    };
    let the_match = Tree::branch(
        Node::expr(22, find("match c { true => (), false => g() }"), ExprKind::Match(MatchSource::Normal)),
        vec![
            Tree::leaf(Node::typed(
                23,
                find("c"),
                ExprKind::Path { qself: false, segments: vec!["c".to_string()], res: Def::Local(99) },
                Ty::Bool,
            )),
            Tree::branch(
                Node::arm(24, find("true => ()"), 1, false),
                vec![bool_pat(25, true, find("true")), Tree::leaf(Node::expr(26, find("()"), ExprKind::Tup))],
            ),
            Tree::branch(
                Node::arm(27, find("false => g()"), 1, false),
                vec![bool_pat(28, false, find("false")), Tree::leaf(Node::expr(29, find("g()"), ExprKind::Other))],
            ),
        ],
    );
    let body = Tree::branch(
        Node::block(2, sp(7, SOURCE.len())),
        vec![
            decl,
            Tree::branch(Node::stmt(7, find("for x in 9..3 { i += 1; }"), StmtKind::Expr), vec![for_loop]),
            Tree::branch(Node::stmt(18, find("loop {}"), StmtKind::Expr), vec![empty_loop]),
            Tree::branch(Node::stmt(21, find("match c"), StmtKind::Expr), vec![the_match]),
        ],
    );
    Tree::branch(
        Node::item(1, sp(0, SOURCE.len()), ItemKind::Fn, "f".to_string(), Vec::new()),
        vec![body],
    )
}

fn context() -> LateContext {
    LateContext {
        source: SourceMap { src: SOURCE.to_string(), expansions: Vec::new() },
        scopes: ScopeTree::new(),
        levels: Levels { settings: Vec::new() },
    }
}

fn sorted_lints(diagnostics: &[Diagnostic]) -> Vec<String> {
    let mut names: Vec<String> = diagnostics.iter().map(|d| format!("{:?}|{}", d.lint, d.message)).collect();
    names.sort();
    names
}

#[test]
fn engine_reports_findings_in_walk_order() {
    let report = lint_tree(&context(), &program());
    assert!(report.defects.is_empty());
    let lints: Vec<Lint> = report.diagnostics.iter().map(|d| d.lint).collect();
    assert_eq!(
        lints,
        vec![Lint::ReverseRangeLoop, Lint::ExplicitCounterLoop, Lint::EmptyLoop, Lint::MatchBool]
    );
    assert_eq!(report.diagnostics[0].children[0].replacements[0].text, "(3..9).rev()");
    assert_eq!(report.diagnostics[3].children[0].replacements[0].text, "if !c { g() }");
}

#[test]
fn two_runs_over_the_same_tree_report_the_same() {
    let tree = program();
    let cx = context();
    let first: Report = lint_tree(&cx, &tree);
    let second: Report = lint_tree(&cx, &tree);
    assert_eq!(first, second);
    assert_eq!(sorted_lints(&first.diagnostics), sorted_lints(&second.diagnostics));
    // A tree built anew from the same source gives the same again.
    let third = lint_tree(&context(), &program());
    assert_eq!(first, third);
}

#[test]
fn tree_of_one_node_reports_nothing() {
    let tree = Tree::leaf(Node::block(1, sp(0, 0)));
    let report = lint_tree(&context(), &tree);
    assert!(report.diagnostics.is_empty());
    assert!(report.defects.is_empty());
}

#[test]
fn registry_names_the_detectors_for_each_kind_of_node() {
    let tree = program();
    // Position 0 is the function, 1 its body, 2 the first statement.
    assert_eq!(detectors_for(&tree.node(0).kind), vec![Detector::Deprecated, Detector::ItemAttributes]);
    assert!(detectors_for(&tree.node(1).kind).is_empty());
    assert_eq!(detectors_for(&tree.node(2).kind), vec![Detector::UnusedCollect]);
    let an_expression = Node::expr(1, sp(0, 0), ExprKind::Other);
    assert_eq!(
        detectors_for(&an_expression.kind),
        vec![Detector::Loops, Detector::Matches, Detector::UselessVec, Detector::AndThenSome]
    );
    assert!(detectors_for(&Node::pat(1, sp(0, 0), PatKind::Wild).kind).is_empty());
}
