use clippy_lints::context::LateContext;
use clippy_lints::diagnostics::{Diagnostic, Levels, Lint};
use clippy_lints::engine::lint_tree;
use clippy_lints::node::{
    ConstVal, DeclKind, Def, ExprKind, Lit, Mutability, Node, NodeKind, PatKind, StmtKind, VecArgs,
};
use clippy_lints::options::Options;
use clippy_lints::scope::ScopeTree;
use clippy_lints::source::{ExpnFormat, ExpnInfo, NameAndSpan, SourceMap};
use clippy_lints::span::Span;
use clippy_lints::tree::Tree;
use clippy_lints::ty::Ty;
use clippy_lints::vec::{is_adjusted, source_callsite, Pass};

fn cx_for(text: &str) -> LateContext {
    LateContext {
        source: SourceMap { src: text.to_string(), expansions: Vec::new() },
        scopes: ScopeTree::new(),
        levels: Levels { settings: Vec::new() },
    }
}

fn here(text: &str, needle: &str) -> Span {
    let at = text.find(needle).expect("the text holds the needle");
    Span::new(at, at + needle.len())
}

fn number(id: u32, sp: Span, value: u64) -> Tree {
    Tree::leaf(Node::integral(id, sp, ExprKind::Lit(Lit::Int(value)), value as i128))
}

fn adjusted(id: u32, span: Span, kind: ExprKind, ty: Ty, adjusted: Ty) -> Node {
    Node { id, span, kind: NodeKind::Expr { kind, ty, adjusted: Some(adjusted), constant: None } }
}

fn vec_ty(item: Ty) -> Ty {
    Ty::Adt { path: "collections::vec::Vec".to_string(), args: vec![item], copy: false }
}

fn slice_ref() -> Ty {
    Ty::Ref(Box::new(Ty::Slice(Box::new(Ty::Int))))
}

fn only(diagnostics: Vec<Diagnostic>) -> Diagnostic {
    assert_eq!(diagnostics.len(), 1);
    diagnostics.into_iter().next().unwrap()
}

#[test]
fn borrowed_vec_used_as_a_slice_is_useless() {
    let text = "foo(&vec![1, 2])";
    let list = Tree::branch(
        Node::typed(2, here(text, "vec![1, 2]"), ExprKind::VecMacro(VecArgs::Vec), vec_ty(Ty::Int)),
        vec![number(3, here(text, "1"), 1), number(4, here(text, "2"), 2)],
    );
    let tree = Tree::branch(
        adjusted(
            1,
            here(text, "&vec![1, 2]"),
            ExprKind::AddrOf(Mutability::Immutable),
            Ty::Ref(Box::new(vec_ty(Ty::Int))),
            slice_ref(),
        ),
        vec![list],
    );
    let d = only(lint_tree(&cx_for(text), &tree).diagnostics);
    assert_eq!(d.lint, Lint::UselessVec);
    assert_eq!(d.span, here(text, "&vec![1, 2]"));
    assert_eq!(d.message, "useless use of `vec!`");
    assert_eq!(d.children[0].message, "you can use a slice directly");
    assert_eq!(d.children[0].replacements[0].text, "&[1, 2]");
    assert!(is_adjusted(&tree, 0));
    assert!(!is_adjusted(&tree, 1));
}

#[test]
fn borrowed_vec_that_stays_a_vec_is_left_alone() {
    let text = "foo(&vec![1, 2])";
    let list = Tree::branch(
        Node::typed(2, here(text, "vec![1, 2]"), ExprKind::VecMacro(VecArgs::Vec), vec_ty(Ty::Int)),
        vec![number(3, here(text, "1"), 1), number(4, here(text, "2"), 2)],
    );
    let tree = Tree::branch(
        Node::typed(
            1,
            here(text, "&vec![1, 2]"),
            ExprKind::AddrOf(Mutability::Immutable),
            Ty::Ref(Box::new(vec_ty(Ty::Int))),
        ),
        vec![list],
    );
    assert!(lint_tree(&cx_for(text), &tree).diagnostics.is_empty());
}

#[test]
fn empty_and_repeated_vecs_become_slices() {
    let text = "&vec![] &vec![0; 8] &vec![0; n]";
    let borrow = |id: u32, span: Span, inner: Tree| {
        Tree::branch(
            adjusted(id, span, ExprKind::AddrOf(Mutability::Immutable), Ty::Other, slice_ref()),
            vec![inner],
        )
    };
    let empty = borrow(
        1,
        here(text, "&vec![]"),
        Tree::leaf(Node::expr(2, here(text, "vec![]"), ExprKind::VecMacro(VecArgs::Vec))),
    );
    let d = only(lint_tree(&cx_for(text), &empty).diagnostics);
    assert_eq!(d.children[0].replacements[0].text, "&[]");
    let repeated = borrow(
        1,
        here(text, "&vec![0; 8]"),
        Tree::branch(
            Node::expr(2, here(text, "vec![0; 8]"), ExprKind::VecMacro(VecArgs::Repeat)),
            vec![number(3, here(text, "0"), 0), number(4, here(text, "8"), 8)],
        ),
    );
    let d = only(lint_tree(&cx_for(text), &repeated).diagnostics);
    assert_eq!(d.children[0].replacements[0].text, "&[0; 8]");
    // A length that is no constant cannot be the length of an array.
    let dynamic = borrow(
        1,
        here(text, "&vec![0; n]"),
        Tree::branch(
            Node::expr(2, here(text, "vec![0; n]"), ExprKind::VecMacro(VecArgs::Repeat)),
            vec![
                number(3, here(text, "0"), 0),
                Tree::leaf(Node::expr(
                    4,
                    here(text, "n"),
                    ExprKind::Path { qself: false, segments: vec!["n".to_string()], res: Def::Local(9) },
                )),
            ],
        ),
    );
    assert!(lint_tree(&cx_for(text), &dynamic).diagnostics.is_empty());
}

#[test]
fn loop_over_a_vec_of_copied_items_is_reported_at_the_macro_call() {
    let text = "for x in vec![1, 2] {}";
    let mut inside = here(text, "1, 2");
    inside.expn_id = 0;
    let list = Tree::branch(
        Node::typed(3, inside, ExprKind::VecMacro(VecArgs::Vec), vec_ty(Ty::Int)),
        vec![number(4, here(text, "1"), 1), number(5, here(text, "2"), 2)],
    );
    let tree = Tree::branch(
        Node::expr(1, here(text, text), ExprKind::ForLoop),
        vec![
            Tree::leaf(Node::pat(2, here(text, "x"), PatKind::Wild)),
            list,
            Tree::branch(
                Node::expr(6, here(text, "{}"), ExprKind::Block),
                vec![Tree::leaf(Node::block(7, here(text, "{}")))],
            ),
        ],
    );
    let mut cx = cx_for(text);
    cx.source.expansions.push(ExpnInfo {
        call_site: here(text, "vec![1, 2]"),
        callee: NameAndSpan { format: ExpnFormat::MacroBang, name: "vec".to_string(), span: None },
    });
    assert_eq!(source_callsite(&cx.source, inside), here(text, "vec![1, 2]"));
    let found: Vec<Diagnostic> =
        lint_tree(&cx, &tree).diagnostics.into_iter().filter(|d| d.lint == Lint::UselessVec).collect();
    let d = only(found);
    assert_eq!(d.span, here(text, "vec![1, 2]"));
    assert_eq!(d.children[0].replacements[0].text, "&[1, 2]");
    let mut out = Vec::new();
    Pass.check_expr(&cx.source, &tree, 0, &mut out);
    assert_eq!(out.len(), 1);
}

#[test]
fn loop_over_a_vec_of_moved_items_is_left_alone() {
    let text = "for x in vec![a, b] {}";
    let list = Tree::branch(
        Node::typed(3, here(text, "vec![a, b]"), ExprKind::VecMacro(VecArgs::Vec), vec_ty(Ty::Other)),
        vec![number(4, here(text, "a"), 1), number(5, here(text, "b"), 2)],
    );
    let tree = Tree::branch(
        Node::expr(1, here(text, text), ExprKind::ForLoop),
        vec![
            Tree::leaf(Node::pat(2, here(text, "x"), PatKind::Wild)),
            list,
            Tree::branch(
                Node::expr(6, here(text, "{}"), ExprKind::Block),
                vec![Tree::leaf(Node::block(7, here(text, "{}")))],
            ),
        ],
    );
    assert!(lint_tree(&cx_for(text), &tree).diagnostics.iter().all(|d| d.lint != Lint::UselessVec));
}

fn option_ty() -> Ty {
    Ty::Adt { path: "core::option::Option".to_string(), args: vec![Ty::Int], copy: true }
}

fn some_path(id: u32) -> Tree {
    Tree::leaf(Node::expr(
        id,
        Span::new(0, 0),
        ExprKind::Path {
            qself: false,
            segments: vec!["Option".to_string(), "Some".to_string()],
            res: Def::Other,
        },
    ))
}

fn none_path(id: u32) -> Tree {
    Tree::leaf(Node::expr(
        id,
        Span::new(0, 0),
        ExprKind::Path { qself: false, segments: vec!["None".to_string()], res: Def::Other },
    ))
}

fn value(id: u32) -> Tree {
    Tree::leaf(Node {
        id,
        span: Span::new(0, 0),
        kind: NodeKind::Expr {
            kind: ExprKind::Lit(Lit::Int(1)),
            ty: Ty::Int,
            adjusted: None,
            constant: Some(ConstVal::Integral(1)),
        },
    })
}

fn call(id: u32, callee: Tree, args: Vec<Tree>) -> Tree {
    let mut parts = vec![callee];
    parts.extend(args);
    Tree::branch(Node::expr(id, Span::new(0, 0), ExprKind::Call), parts)
}

fn block(id: u32, stmts: Vec<Tree>) -> Tree {
    Tree::branch(Node::block(id, Span::new(0, 0)), stmts)
}

fn closure(id: u32, body: Tree) -> Tree {
    Tree::branch(Node::expr(id, Span::new(0, 0), ExprKind::Closure), vec![body])
}

fn and_then(receiver_ty: Ty, argument: Tree) -> Tree {
    Tree::branch(
        Node::expr(
            1,
            Span::new(0, 9),
            ExprKind::MethodCall { name: "and_then".to_string(), trait_path: None, impl_path: None },
        ),
        vec![
            Tree::leaf(Node::typed(
                2,
                Span::new(0, 1),
                ExprKind::Path { qself: false, segments: vec!["x".to_string()], res: Def::Local(50) },
                receiver_ty,
            )),
            argument,
        ],
    )
}

fn and_then_lints(tree: &Tree) -> Vec<Lint> {
    let mut out = Vec::new();
    Options.check_expr(tree, 0, &mut out);
    out.iter().map(|d| d.lint).collect()
}

#[test]
fn and_then_with_some_should_be_map() {
    let tree = and_then(option_ty(), some_path(3));
    let mut out = Vec::new();
    Options.check_expr(&tree, 0, &mut out);
    assert_eq!(out.len(), 1);
    assert_eq!(out[0].lint, Lint::OptionAndThenSome);
    assert_eq!(out[0].span, Span::new(0, 9));
    assert_eq!(
        out[0].message,
        "Consider using _.map(_) instead of _.and_then(_) if the argument only ever returns Some(_)"
    );
    assert_eq!(Options.get_lints(), vec![Lint::OptionAndThenSome]);
}

#[test]
fn and_then_on_a_reference_to_an_option_is_checked() {
    let tree = and_then(Ty::Ref(Box::new(option_ty())), some_path(3));
    assert_eq!(and_then_lints(&tree), vec![Lint::OptionAndThenSome]);
}

#[test]
fn and_then_on_a_result_is_left_alone() {
    let result = Ty::Adt { path: "core::result::Result".to_string(), args: vec![], copy: false };
    assert!(and_then_lints(&and_then(result, some_path(3))).is_empty());
}

#[test]
fn closure_that_always_gives_some_should_be_map() {
    // |o| if c { Some(1) } else { Some(1) }
    let branch = |id: u32| block(id, vec![call(id + 1, some_path(id + 2), vec![value(id + 3)])]);
    let if_else = Tree::branch(
        Node::expr(10, Span::new(0, 0), ExprKind::If),
        vec![
            value(11),
            branch(20),
            Tree::branch(Node::expr(30, Span::new(0, 0), ExprKind::Block), vec![branch(40)]),
        ],
    );
    let tree = and_then(option_ty(), closure(3, block(4, vec![if_else])));
    assert_eq!(and_then_lints(&tree), vec![Lint::OptionAndThenSome]);
}

#[test]
fn closure_that_may_give_none_needs_and_then() {
    // |o| if c { Some(1) } else { None }
    let if_else = Tree::branch(
        Node::expr(10, Span::new(0, 0), ExprKind::If),
        vec![
            value(11),
            block(20, vec![call(21, some_path(22), vec![value(23)])]),
            Tree::branch(Node::expr(30, Span::new(0, 0), ExprKind::Block), vec![block(40, vec![none_path(41)])]),
        ],
    );
    let tree = and_then(option_ty(), closure(3, block(4, vec![if_else])));
    assert!(and_then_lints(&tree).is_empty());
}

#[test]
fn if_without_else_may_give_nothing() {
    let lone_if = Tree::branch(
        Node::expr(10, Span::new(0, 0), ExprKind::If),
        vec![value(11), block(20, vec![call(21, some_path(22), vec![value(23)])])],
    );
    let tree = and_then(option_ty(), closure(3, block(4, vec![lone_if])));
    assert!(and_then_lints(&tree).is_empty());
}

#[test]
fn early_return_of_none_needs_and_then() {
    // |o| { return None; Some(1) }
    let ret = Tree::branch(Node::expr(10, Span::new(0, 0), ExprKind::Ret), vec![none_path(11)]);
    let stmts = vec![
        Tree::branch(Node::stmt(9, Span::new(0, 0), StmtKind::Semi), vec![ret]),
        call(20, some_path(21), vec![value(22)]),
    ];
    let tree = and_then(option_ty(), closure(3, block(4, stmts)));
    assert!(and_then_lints(&tree).is_empty());
    // An early return of `Some(_)` is fine.
    let ret = Tree::branch(
        Node::expr(10, Span::new(0, 0), ExprKind::Ret),
        vec![call(11, some_path(12), vec![value(13)])],
    );
    let stmts = vec![
        Tree::branch(Node::stmt(9, Span::new(0, 0), StmtKind::Semi), vec![ret]),
        call(20, some_path(21), vec![value(22)]),
    ];
    let tree = and_then(option_ty(), closure(3, block(4, stmts)));
    assert_eq!(and_then_lints(&tree), vec![Lint::OptionAndThenSome]);
}

#[test]
fn declaration_that_returns_none_needs_and_then() {
    // |o| { let y = return None; Some(1) }
    let ret = Tree::branch(Node::expr(12, Span::new(0, 0), ExprKind::Ret), vec![none_path(13)]);
    let decl = Tree::branch(
        Node::stmt(9, Span::new(0, 0), StmtKind::Decl),
        vec![Tree::branch(
            Node::decl(10, Span::new(0, 0), DeclKind::Local { has_init: true }),
            vec![Tree::leaf(Node::pat(11, Span::new(0, 0), PatKind::Wild)), ret],
        )],
    );
    let tree = and_then(option_ty(), closure(3, block(4, vec![decl, call(20, some_path(21), vec![value(22)])])));
    assert!(and_then_lints(&tree).is_empty());
}

#[test]
fn function_that_is_not_some_needs_and_then() {
    let to_none = Tree::leaf(Node::expr(
        3,
        Span::new(0, 0),
        ExprKind::Path { qself: false, segments: vec!["to_none".to_string()], res: Def::Other },
    ));
    assert!(and_then_lints(&and_then(option_ty(), to_none)).is_empty());
}
