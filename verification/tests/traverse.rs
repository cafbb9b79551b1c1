use jsgen::BinaryOperator;
use jsgen::Expr;
use jsgen::Stmt;
use jsgen::g::G;
use jsgen::walk::HookKind;
use jsgen::walk::Recorder;
use jsgen::walk::RenameVisitor;
use jsgen::walk::walk_expr;
use jsgen::walk::walk_expr_mut;
use jsgen::walk::walk_stmt;
use jsgen::walk::walk_stmt_mut;

fn s(text: &str) -> String {
    String::from(text)
}

fn p4_tree() -> Stmt {
    G::if_(
        G::bool(true),
        G::block(vec![G::expr(G::var(s("x")))]),
        Some(G::block(vec![G::expr(G::var(s("y")))])),
    )
}

#[test]
fn traversal_order_is_fixed() {
    let tree = p4_tree();
    let mut rec = Recorder::new();
    walk_stmt(&tree, &mut rec);
    let expected: Vec<(HookKind, String)> = vec![
        (HookKind::PreStmt, s("if(true){x;}else{y;}")),
        (HookKind::PreExpr, s("true")),
        (HookKind::PostExpr, s("true")),
        (HookKind::PreStmt, s("x;")),
        (HookKind::PreStmt, s("x;")),
        (HookKind::PreExpr, s("x")),
        (HookKind::PostExpr, s("x")),
        (HookKind::PostStmt, s("x;")),
        (HookKind::PostStmt, s("x;")),
        (HookKind::PreStmt, s("y;")),
        (HookKind::PreStmt, s("y;")),
        (HookKind::PreExpr, s("y")),
        (HookKind::PostExpr, s("y")),
        (HookKind::PostStmt, s("y;")),
        (HookKind::PostStmt, s("y;")),
        (HookKind::PostStmt, s("if(true){x;}else{y;}")),
    ];
    assert_eq!(rec.log, expected);
}

#[test]
fn traversal_completeness_counts() {
    // The tree below has exactly eight nodes: If, Bool, two Blocks, two
    // expression statements and two variable references.
    let tree = p4_tree();
    let mut rec = Recorder::new();
    walk_stmt(&tree, &mut rec);
    assert_eq!(rec.log.len(), 16);
    let pre = rec
        .log
        .iter()
        .filter(|e| e.0 == HookKind::PreStmt || e.0 == HookKind::PreExpr)
        .count();
    let post = rec
        .log
        .iter()
        .filter(|e| e.0 == HookKind::PostStmt || e.0 == HookKind::PostExpr)
        .count();
    assert_eq!(pre, 8);
    assert_eq!(post, 8);
}

#[test]
fn traversal_completeness_wide_tree() {
    // function(a){var v=[1,this];o.k;} as an expression statement:
    // ExprStmt, Function, Var-decl, Array, two literals, ExprStmt, Member,
    // VarRef, StringLiteral make ten nodes.
    let tree = G::expr(G::function(
        vec![s("a")],
        vec![
            G::let_(s("v"), Some(G::array(vec![
                G::number((1.0f64).to_string()),
                G::this(),
            ]))),
            G::expr(G::member(G::var(s("o")), G::string(s("k")))),
        ],
    ));
    let mut rec = Recorder::new();
    walk_stmt(&tree, &mut rec);
    let pre = rec
        .log
        .iter()
        .filter(|e| e.0 == HookKind::PreStmt || e.0 == HookKind::PreExpr)
        .count();
    let post = rec
        .log
        .iter()
        .filter(|e| e.0 == HookKind::PostStmt || e.0 == HookKind::PostExpr)
        .count();
    assert_eq!(rec.log.len(), 20);
    assert_eq!(pre, 10);
    assert_eq!(post, 10);
}

#[test]
fn expression_walk_visits_pre_then_post() {
    let expr = G::var(s("x"));
    let mut rec = Recorder::new();
    walk_expr(&expr, &mut rec);
    let expected: Vec<(HookKind, String)> = vec![
        (HookKind::PreExpr, s("x")),
        (HookKind::PostExpr, s("x")),
    ];
    assert_eq!(rec.log, expected);
}

#[test]
fn rename_replacement_is_observed() {
    // A replacement made by a pre-hook is kept: the walked tree holds the
    // new reference, and serializing afterwards shows it.
    let expr = G::var(s("x"));
    let mut pass = RenameVisitor::new(s("x"), s("y"));
    let renamed = walk_expr_mut(expr, &mut pass);
    assert_eq!(renamed.to_source(), "y");
}

#[test]
fn rename_reaches_every_reference() {
    let tree = G::block(vec![
        G::expr(G::assign(s("a"), G::var(s("x")))),
        G::expr(G::binary(BinaryOperator::Add, G::var(s("x")), G::var(s("z")))),
        G::if_(
            G::var(s("x")),
            G::expr(G::call(G::var(s("x")), vec![G::var(s("x"))])),
            None,
        ),
    ]);
    let mut pass = RenameVisitor::new(s("x"), s("y"));
    let renamed = walk_stmt_mut(tree, &mut pass);
    assert_eq!(renamed.to_source(), "a=y;(y+z);if(y){y(y);}");
}

#[test]
fn rename_leaves_other_names_alone() {
    let tree = G::expr(G::object(vec![
        (s("x"), G::var(s("q"))),
        (s("k"), G::string(s("x"))),
    ]));
    let mut pass = RenameVisitor::new(s("x"), s("y"));
    let renamed = walk_stmt_mut(tree, &mut pass);
    // Object keys and string literals are not variable references; only a
    // `Var` named exactly `x` would change, and none occurs here.
    assert_eq!(renamed.to_source(), "{x:q,k:\"x\"};");
}

#[test]
fn rename_without_match_keeps_tree() {
    let tree = G::while_(
        G::var(s("go")),
        G::return_(Some(G::var(s("value")))),
    );
    let before = tree.to_source();
    let mut pass = RenameVisitor::new(s("missing"), s("other"));
    let renamed = walk_stmt_mut(tree, &mut pass);
    assert_eq!(renamed.to_source(), before);
}

#[test]
fn walk_covers_function_bodies_and_objects() {
    let tree = G::expr(G::function(
        vec![s("p")],
        vec![G::expr(G::object(vec![(s("k"), G::var(s("x")))]))],
    ));
    let mut pass = RenameVisitor::new(s("x"), s("y"));
    let renamed = walk_stmt_mut(tree, &mut pass);
    assert_eq!(renamed.to_source(), "function(p){{k:y};};");
}
