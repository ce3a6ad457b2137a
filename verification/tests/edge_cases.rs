use clippy_lints::camel::{camel_from, camel_until, classify, Letter};
use clippy_lints::context::LateContext;
use clippy_lints::diagnostics::{Diagnostic, Levels, Lint};
use clippy_lints::engine::lint_tree;
use clippy_lints::matches::{overlapping, SpannedRange};
use clippy_lints::node::{
    BinOp, BindingMode, DeclKind, Def, ExprKind, Lit, MatchSource, Mutability, Node, PatKind, RangeLimits,
    StmtKind,
};
use clippy_lints::scope::ScopeTree;
use clippy_lints::source::SourceMap;
use clippy_lints::span::Span;
use clippy_lints::tree::{walk, Tree};
use clippy_lints::usage::{
    is_inside_conditional, is_used, is_used_after, IncrementVisitor, InitializeVisitor, VarState, VarVisitor,
};

fn nowhere() -> Span {
    Span::new(0, 0)
}

fn cx() -> LateContext {
    LateContext {
        source: SourceMap { src: String::new(), expansions: Vec::new() },
        scopes: ScopeTree::new(),
        levels: Levels { settings: Vec::new() },
    }
}

fn local(id: u32, name: &str, var: u32) -> Tree {
    Tree::leaf(Node::expr(
        id,
        nowhere(),
        ExprKind::Path { qself: false, segments: vec![name.to_string()], res: Def::Local(var) },
    ))
}

fn num(id: u32, value: u64) -> Tree {
    Tree::leaf(Node::integral(id, nowhere(), ExprKind::Lit(Lit::Int(value)), value as i128))
}

fn e(id: u32, kind: ExprKind, kids: Vec<Tree>) -> Tree {
    Tree::branch(Node::expr(id, nowhere(), kind), kids)
}

fn semi(id: u32, expr: Tree) -> Tree {
    Tree::branch(Node::stmt(id, nowhere(), StmtKind::Semi), vec![expr])
}

fn block(id: u32, stmts: Vec<Tree>) -> Tree {
    Tree::branch(Node::block(id, nowhere()), stmts)
}

fn block_expr(id: u32, stmts: Vec<Tree>) -> Tree {
    e(id, ExprKind::Block, vec![block(id + 1, stmts)])
}

fn binding(id: u32, name: &str) -> Tree {
    Tree::leaf(Node::pat(
        id,
        nowhere(),
        PatKind::Binding {
            mode: BindingMode::ByValue(Mutability::Mutable),
            name: name.to_string(),
            has_sub: false,
        },
    ))
}

fn let_stmt(id: u32, var: u32, name: &str, init: Option<Tree>) -> Tree {
    let mut parts = vec![binding(var, name)];
    let has_init = init.is_some();
    parts.extend(init);
    Tree::branch(
        Node::stmt(id, nowhere(), StmtKind::Decl),
        vec![Tree::branch(Node::decl(id + 1, nowhere(), DeclKind::Local { has_init }), parts)],
    )
}

fn add_assign(id: u32, var: u32, amount: u64) -> Tree {
    semi(id, e(id + 1, ExprKind::AssignOp(BinOp::Add), vec![local(id + 2, "i", var), num(id + 3, amount)]))
}

fn for_over_v(id: u32, body: Vec<Tree>) -> Tree {
    e(
        id,
        ExprKind::ForLoop,
        vec![binding(id + 1, "x"), local(id + 2, "v", 900), block_expr(id + 3, body)],
    )
}

/// `{ <before> for x in v { <body> } <after> }` with the counter `i`
/// declared as variable 50.
fn counter_program(before: Vec<Tree>, body: Vec<Tree>, after: Vec<Tree>) -> Tree {
    let mut stmts = before;
    stmts.push(Tree::branch(Node::stmt(100, nowhere(), StmtKind::Expr), vec![for_over_v(101, body)]));
    stmts.extend(after);
    block(1, stmts)
}

fn counters(tree: &Tree) -> Vec<Diagnostic> {
    lint_tree(&cx(), tree).diagnostics.into_iter().filter(|d| d.lint == Lint::ExplicitCounterLoop).collect()
}

fn zero_init() -> Vec<Tree> {
    vec![let_stmt(10, 50, "i", Some(num(12, 0)))]
}

#[test]
fn plain_counter_is_found() {
    let tree = counter_program(zero_init(), vec![add_assign(200, 50, 1)], vec![]);
    assert_eq!(counters(&tree).len(), 1);
}

#[test]
fn increment_by_two_is_no_counter() {
    let tree = counter_program(zero_init(), vec![add_assign(200, 50, 2)], vec![]);
    assert!(counters(&tree).is_empty());
}

#[test]
fn subtraction_is_no_counter() {
    let dec = semi(200, e(201, ExprKind::AssignOp(BinOp::Sub), vec![local(202, "i", 50), num(203, 1)]));
    let tree = counter_program(zero_init(), vec![dec], vec![]);
    assert!(counters(&tree).is_empty());
}

#[test]
fn assignment_in_the_body_rules_the_counter_out() {
    let assign = semi(300, e(301, ExprKind::Assign, vec![local(302, "i", 50), num(303, 5)]));
    let tree = counter_program(zero_init(), vec![add_assign(200, 50, 1), assign], vec![]);
    assert!(counters(&tree).is_empty());
}

#[test]
fn mutable_borrow_in_the_body_rules_the_counter_out() {
    let borrow = semi(300, e(301, ExprKind::AddrOf(Mutability::Mutable), vec![local(302, "i", 50)]));
    let tree = counter_program(zero_init(), vec![add_assign(200, 50, 1), borrow], vec![]);
    assert!(counters(&tree).is_empty());
    let shared = semi(300, e(301, ExprKind::AddrOf(Mutability::Immutable), vec![local(302, "i", 50)]));
    let tree = counter_program(zero_init(), vec![add_assign(200, 50, 1), shared], vec![]);
    assert_eq!(counters(&tree).len(), 1);
}

#[test]
fn increment_inside_a_match_is_conditional() {
    let arm = Tree::branch(
        Node::arm(400, nowhere(), 1, false),
        vec![Tree::leaf(Node::pat(401, nowhere(), PatKind::Wild)), block_expr(402, vec![add_assign(200, 50, 1)])],
    );
    let guarded = e(300, ExprKind::Match(MatchSource::Normal), vec![local(301, "c", 901), arm]);
    let tree = counter_program(zero_init(), vec![semi(299, guarded)], vec![]);
    assert!(counters(&tree).is_empty());
}

#[test]
fn counter_declared_without_value_and_set_to_zero_later_is_found() {
    let reset = semi(20, e(21, ExprKind::Assign, vec![local(22, "i", 50), num(23, 0)]));
    let tree = counter_program(
        vec![let_stmt(10, 50, "i", None), reset],
        vec![add_assign(200, 50, 1)],
        vec![],
    );
    assert_eq!(counters(&tree).len(), 1);
}

#[test]
fn counter_written_between_declaration_and_loop_is_ruled_out() {
    let bump = add_assign(20, 50, 1);
    let tree = counter_program(
        vec![let_stmt(10, 50, "i", Some(num(12, 0))), bump],
        vec![add_assign(200, 50, 1)],
        vec![],
    );
    assert!(counters(&tree).is_empty());
}

#[test]
fn counter_read_before_the_loop_is_still_found() {
    let read = semi(20, e(21, ExprKind::Call, vec![local(22, "show", 902), local(23, "i", 50)]));
    let tree = counter_program(
        vec![let_stmt(10, 50, "i", Some(num(12, 0))), read],
        vec![add_assign(200, 50, 1)],
        vec![],
    );
    assert_eq!(counters(&tree).len(), 1);
}

#[test]
fn other_loop_before_the_counted_loop_rules_the_counter_out() {
    let earlier = Tree::branch(
        Node::stmt(20, nowhere(), StmtKind::Expr),
        vec![e(21, ExprKind::While, vec![local(22, "c", 901), block(23, vec![])])],
    );
    let tree = counter_program(
        vec![let_stmt(10, 50, "i", Some(num(12, 0))), earlier],
        vec![add_assign(200, 50, 1)],
        vec![],
    );
    assert!(counters(&tree).is_empty());
}

#[test]
fn counter_declared_inside_the_loop_is_not_found() {
    let tree = counter_program(
        vec![],
        vec![let_stmt(10, 50, "i", Some(num(12, 0))), add_assign(200, 50, 1)],
        vec![],
    );
    assert!(counters(&tree).is_empty());
}

#[test]
fn two_counters_are_reported_in_the_order_of_their_first_use() {
    let before = vec![let_stmt(10, 50, "i", Some(num(12, 0))), let_stmt(20, 60, "j", Some(num(22, 0)))];
    let second = semi(300, e(301, ExprKind::AssignOp(BinOp::Add), vec![local(302, "j", 60), num(303, 1)]));
    let tree = counter_program(before, vec![second, add_assign(200, 50, 1)], vec![]);
    let found = counters(&tree);
    assert_eq!(found.len(), 2);
    assert!(found[0].message.starts_with("the variable `j`"));
    assert!(found[1].message.starts_with("the variable `i`"));
}

#[test]
fn increment_scan_records_each_variable_once() {
    let body = block_expr(
        1,
        vec![
            add_assign(10, 50, 1),
            add_assign(20, 60, 1),
            add_assign(30, 50, 1),
            semi(40, e(41, ExprKind::Call, vec![local(42, "show", 70)])),
        ],
    );
    let mut visitor = IncrementVisitor { root: 0, states: Vec::new(), done: false };
    walk(&mut visitor, &body, 0);
    assert_eq!(
        visitor.states,
        vec![(50, VarState::DontWarn), (60, VarState::IncrOnce), (70, VarState::Initial)]
    );
    assert!(!visitor.done);
}

#[test]
fn initialize_scan_passes_over_the_loop_itself() {
    let tree = counter_program(zero_init(), vec![add_assign(200, 50, 1)], vec![]);
    // The loop is the child of the statement at position 5.
    let the_loop = tree.children(5)[0];
    let mut visitor = InitializeVisitor {
        root: 0,
        end_expr: the_loop,
        var_id: 50,
        state: VarState::IncrOnce,
        name: None,
        past_loop: false,
    };
    walk(&mut visitor, &tree, 0);
    assert_eq!(visitor.state, VarState::Warn);
    assert_eq!(visitor.name, Some("i".to_string()));
    assert!(visitor.past_loop);
}

#[test]
fn index_scan_tells_index_uses_from_others() {
    // v[i]; w[i]; v[i]; i
    let index = |id: u32, name: &str, var: u32| {
        semi(id, e(id + 1, ExprKind::Index, vec![local(id + 2, name, var), local(id + 3, "i", 5)]))
    };
    let body = block(1, vec![index(10, "v", 100), index(20, "w", 101), index(30, "v", 100)]);
    let mut scopes = ScopeTree::new();
    let outer = scopes.add_scope(None);
    scopes.bind(100, outer);
    let mut visitor = VarVisitor { scopes: &scopes, var: 5, indexed: Vec::new(), nonindex: false };
    walk(&mut visitor, &body, 0);
    let names: Vec<&str> = visitor.indexed.iter().map(|entry| entry.0.as_str()).collect();
    assert_eq!(names, vec!["v", "w"]);
    assert_eq!(visitor.indexed[0].1, clippy_lints::usage::Declared::In(outer));
    assert_eq!(visitor.indexed[1].1, clippy_lints::usage::Declared::Unknown);
    assert!(!visitor.nonindex);
    let with_other = block(1, vec![index(10, "v", 100), semi(40, local(41, "i", 5))]);
    let mut visitor = VarVisitor { scopes: &scopes, var: 5, indexed: Vec::new(), nonindex: false };
    walk(&mut visitor, &with_other, 0);
    assert!(visitor.nonindex);
    assert_eq!(visitor.indexed.len(), 1);
}

#[test]
fn range_loop_without_indexing_gives_no_finding() {
    let the_loop = e(
        1,
        ExprKind::ForLoop,
        vec![
            binding(5, "i"),
            e(
                2,
                ExprKind::Range { limits: RangeLimits::HalfOpen, has_start: true, has_end: true },
                vec![num(3, 0), num(4, 10)],
            ),
            block_expr(6, vec![semi(8, e(9, ExprKind::Call, vec![local(10, "show", 70), local(11, "i", 5)]))]),
        ],
    );
    let report = lint_tree(&cx(), &the_loop);
    assert!(report.diagnostics.iter().all(|d| d.lint != Lint::NeedlessRangeLoop));
}

#[test]
fn uses_are_found_by_name_and_by_variable() {
    let body = block(1, vec![semi(2, local(3, "a", 10)), semi(4, local(5, "b", 11)), semi(6, local(7, "a", 10))]);
    assert!(is_used(&body, 0, "a"));
    assert!(is_used(&body, 0, "b"));
    assert!(!is_used(&body, 0, "c"));
    assert!(!is_used(&body, 3, "a"));
    assert!(is_used_after(&body, 0, 2, 10));
    assert!(!is_used_after(&body, 0, 6, 10));
    assert!(!is_used_after(&body, 0, 4, 11));
    assert!(is_used_after(&body, 0, 2, 11));
}

#[test]
fn captures_count_as_references() {
    let captured = Tree::leaf(Node::expr(
        5,
        nowhere(),
        ExprKind::Path { qself: false, segments: vec!["a".to_string()], res: Def::Upvar(10) },
    ));
    let body = block(1, vec![semi(2, local(3, "a", 10)), semi(4, captured)]);
    assert!(is_used_after(&body, 0, 2, 10));
    assert!(!is_used_after(&body, 0, 4, 10));
    assert_eq!(clippy_lints::usage::variable(&body, 4), Some(10));
    assert_eq!(clippy_lints::usage::variable(&body, 0), None);
}

#[test]
fn conditions_count_only_inside_the_scanned_region() {
    let inner = e(3, ExprKind::If, vec![local(4, "c", 1), block(5, vec![semi(6, local(7, "x", 2))])]);
    let tree = block(1, vec![semi(2, inner)]);
    // Positions: 0 block, 1 statement, 2 `if`, 3 `c`, 4 block, 5
    // statement, 6 `x`.
    assert!(is_inside_conditional(&tree, 0, 6));
    assert!(is_inside_conditional(&tree, 2, 6));
    assert!(!is_inside_conditional(&tree, 3, 6));
    assert!(!is_inside_conditional(&tree, 0, 2));
    assert!(!is_inside_conditional(&tree, 0, 1));
}

fn r(lo: i128, hi: i128, at: usize) -> SpannedRange<i128> {
    SpannedRange { span: Span::new(at, at + 1), node: (lo, hi) }
}

#[test]
fn only_the_first_overlap_in_sorted_order_is_reported() {
    let ranges = vec![r(20, 30, 0), r(25, 35, 1), r(1, 10, 2), r(5, 15, 3)];
    assert_eq!(overlapping(&ranges), Some((&ranges[2], &ranges[3])));
}

#[test]
fn equal_ranges_overlap() {
    let ranges = vec![r(1, 5, 0), r(1, 5, 1)];
    assert_eq!(overlapping(&ranges), Some((&ranges[0], &ranges[1])));
}

#[test]
fn range_inside_another_overlaps() {
    let ranges = vec![r(1, 10, 0), r(3, 4, 1)];
    assert_eq!(overlapping(&ranges), Some((&ranges[0], &ranges[1])));
    let ranges = vec![r(3, 4, 0), r(1, 10, 1)];
    assert_eq!(overlapping(&ranges), Some((&ranges[1], &ranges[0])));
}

#[test]
fn single_values_overlap_only_when_equal() {
    let ranges = vec![r(3, 3, 0), r(4, 4, 1), r(5, 5, 2)];
    assert_eq!(overlapping(&ranges), None);
    let ranges = vec![r(3, 3, 0), r(4, 4, 1), r(3, 3, 2)];
    assert_eq!(overlapping(&ranges), Some((&ranges[0], &ranges[2])));
}

#[test]
fn few_ranges_never_overlap() {
    let none: Vec<SpannedRange<i128>> = Vec::new();
    assert_eq!(overlapping(&none), None);
    let one = vec![r(i128::MIN, i128::MAX, 0)];
    assert_eq!(overlapping(&one), None);
}

#[test]
fn negative_bounds_are_ordered_as_numbers() {
    let ranges = vec![r(-10, -5, 0), r(-4, 0, 1), r(1, 3, 2)];
    assert_eq!(overlapping(&ranges), None);
    let ranges = vec![r(-10, -5, 0), r(-5, 0, 1)];
    assert_eq!(overlapping(&ranges), Some((&ranges[0], &ranges[1])));
}

#[test]
fn letters_carry_case_and_width() {
    let letters = classify("aÉ_");
    assert_eq!(
        letters,
        vec![
            Letter { upper: false, lower: true, width: 1 },
            Letter { upper: true, lower: false, width: 2 },
            Letter { upper: false, lower: false, width: 1 },
        ]
    );
    assert_eq!(classify("€𝄞").iter().map(|l| l.width).collect::<Vec<usize>>(), vec![3, 4]);
}

#[test]
fn camel_scans_work_on_given_letters() {
    let up = Letter { upper: true, lower: false, width: 1 };
    let low = Letter { upper: false, lower: true, width: 1 };
    let wide = Letter { upper: false, lower: true, width: 3 };
    let other = Letter { upper: false, lower: false, width: 1 };
    assert_eq!(camel_until(&vec![up, low, wide, up, low]), 7);
    assert_eq!(camel_until(&vec![up, wide, other, up]), 4);
    assert_eq!(camel_until(&vec![up, low, up]), 2);
    assert_eq!(camel_until(&vec![low, up]), 0);
    assert_eq!(camel_until(&Vec::new()), 0);
    assert_eq!(camel_from(&vec![low, wide, up, low]), 4);
    assert_eq!(camel_from(&vec![up, wide, other, up, low]), 5);
    assert_eq!(camel_from(&vec![up, low, up]), 3);
    assert_eq!(camel_from(&Vec::new()), 0);
}

/// `loop { match y { Some(x) if c => x, None => break } }`
#[test]
fn guarded_arm_keeps_the_loop_as_it_is() {
    let guarded = Tree::branch(
        Node::arm(6, nowhere(), 1, true),
        vec![
            Tree::branch(
                Node::pat(7, nowhere(), PatKind::TupleStruct { path: vec!["Some".to_string()] }),
                vec![binding(8, "x")],
            ),
            local(9, "c", 70),
            local(10, "x", 8),
        ],
    );
    let breaking = Tree::branch(
        Node::arm(11, nowhere(), 1, false),
        vec![
            Tree::leaf(Node::pat(12, nowhere(), PatKind::Wild)),
            Tree::leaf(Node::expr(13, nowhere(), ExprKind::Break { labelled: false })),
        ],
    );
    let the_match = e(4, ExprKind::Match(MatchSource::Normal), vec![local(5, "y", 71), guarded, breaking]);
    let tree = e(
        1,
        ExprKind::Loop,
        vec![block(2, vec![Tree::branch(Node::stmt(3, nowhere(), StmtKind::Expr), vec![the_match])])],
    );
    let report = lint_tree(&cx(), &tree);
    assert!(report.diagnostics.iter().all(|d| d.lint != Lint::WhileLetLoop));
}

#[test]
fn loop_that_declares_from_a_match_could_be_while_let() {
    // loop { let x = match y { Some(x) => x, None => break }; }
    let taking = Tree::branch(
        Node::arm(6, nowhere(), 1, false),
        vec![
            Tree::branch(
                Node::pat(7, nowhere(), PatKind::TupleStruct { path: vec!["Some".to_string()] }),
                vec![binding(8, "x")],
            ),
            local(10, "x", 8),
        ],
    );
    let breaking = Tree::branch(
        Node::arm(11, nowhere(), 1, false),
        vec![
            Tree::leaf(Node::pat(12, nowhere(), PatKind::Wild)),
            block_expr(13, vec![Tree::leaf(Node::expr(15, nowhere(), ExprKind::Break { labelled: false }))]),
        ],
    );
    let the_match = e(4, ExprKind::Match(MatchSource::Normal), vec![local(5, "y", 71), taking, breaking]);
    let tree = e(1, ExprKind::Loop, vec![block(2, vec![let_stmt(20, 30, "x", Some(the_match))])]);
    let report = lint_tree(&cx(), &tree);
    let found: Vec<&Diagnostic> = report.diagnostics.iter().filter(|d| d.lint == Lint::WhileLetLoop).collect();
    assert_eq!(found.len(), 1);
    // The spans of this tree are empty, and so are their snippets.
    assert_eq!(found[0].children[0].replacements[0].text, "while let  =  { .. }");
}
