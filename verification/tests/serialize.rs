use jsgen::BinaryOperator;
use jsgen::Expr;
use jsgen::Stmt;
use jsgen::UnaryOperator;
use jsgen::g::G;

fn s(text: &str) -> String {
    String::from(text)
}

#[test]
fn var_decl_with_initializer() {
    let stmt = G::let_(s("x"), Some(G::number((1.0f64).to_string())));
    assert_eq!(stmt.to_source(), "var x=1;");
}

#[test]
fn var_decl_without_initializer() {
    let stmt = G::let_(s("x"), None);
    assert_eq!(stmt.to_source(), "var x;");
}

#[test]
fn binary_fully_parenthesized() {
    let expr = G::binary(
        BinaryOperator::Add,
        G::number((1.0f64).to_string()),
        G::number((2.0f64).to_string()),
    );
    assert_eq!(expr.to_source(), "(1+2)");
}

#[test]
fn member_dot_for_string_field() {
    let expr = G::member(G::var(s("o")), G::string(s("k")));
    assert_eq!(expr.to_source(), "o.k");
}

#[test]
fn member_bracket_for_non_string_field() {
    let expr = G::member(G::var(s("o")), G::number((0.0f64).to_string()));
    assert_eq!(expr.to_source(), "o[0]");
}

#[test]
fn if_with_empty_block() {
    let stmt = G::if_(G::bool(true), G::block(vec![]), None);
    assert_eq!(stmt.to_source(), "if(true){}");
}

#[test]
fn if_with_else_branch() {
    let stmt = G::if_(
        G::var(s("c")),
        G::expr(G::var(s("a"))),
        Some(G::expr(G::var(s("b")))),
    );
    assert_eq!(stmt.to_source(), "if(c){a;}else{b;}");
}

#[test]
fn block_concatenates_without_separators() {
    let stmt = G::block(vec![
        G::expr(G::var(s("x"))),
        G::return_(None),
    ]);
    assert_eq!(stmt.to_source(), "x;return;");
}

#[test]
fn return_with_value() {
    let stmt = G::return_(Some(G::number((3.0f64).to_string())));
    assert_eq!(stmt.to_source(), "return 3;");
}

#[test]
fn while_loop() {
    let stmt = G::while_(G::bool(false), G::expr(G::assign(s("i"), G::number((0.0f64).to_string()))));
    assert_eq!(stmt.to_source(), "while(false){i=0;}");
}

#[test]
fn array_literal() {
    let expr = G::array(vec![
        G::number((1.0f64).to_string()),
        G::number((2.0f64).to_string()),
        G::number((3.0f64).to_string()),
    ]);
    assert_eq!(expr.to_source(), "[1,2,3]");
    assert_eq!(G::array(vec![]).to_source(), "[]");
}

#[test]
fn call_with_arguments() {
    let expr = G::call(G::var(s("f")), vec![G::var(s("a")), G::var(s("b"))]);
    assert_eq!(expr.to_source(), "f(a,b)");
    assert_eq!(G::call(G::var(s("f")), vec![]).to_source(), "f()");
}

#[test]
fn function_literal() {
    let expr = G::function(
        vec![s("a"), s("b")],
        vec![G::return_(Some(G::var(s("a"))))],
    );
    assert_eq!(expr.to_source(), "function(a,b){return a;}");
    assert_eq!(G::function(vec![], vec![]).to_source(), "function(){}");
}

#[test]
fn object_literal_keeps_declared_order() {
    let expr = G::object(vec![
        (s("b"), G::number((2.0f64).to_string())),
        (s("a"), G::number((1.0f64).to_string())),
    ]);
    assert_eq!(expr.to_source(), "{b:2,a:1}");
    assert_eq!(G::object(vec![]).to_source(), "{}");
}

#[test]
fn leaf_literals() {
    assert_eq!(G::null().to_source(), "null");
    assert_eq!(G::undefined().to_source(), "undefined");
    assert_eq!(G::this().to_source(), "this");
    assert_eq!(G::bool(true).to_source(), "true");
    assert_eq!(G::bool(false).to_source(), "false");
}

#[test]
fn assignment_has_no_parentheses() {
    let expr = G::assign(s("x"), G::number((5.0f64).to_string()));
    assert_eq!(expr.to_source(), "x=5");
    let stmt = G::expr(G::assign(s("x"), G::number((5.0f64).to_string())));
    assert_eq!(stmt.to_source(), "x=5;");
}

#[test]
fn unary_operator_spacing() {
    assert_eq!(G::unary(UnaryOperator::Not, G::var(s("x"))).to_source(), "!x");
    assert_eq!(G::unary(UnaryOperator::Typeof, G::var(s("x"))).to_source(), "typeof x");
    assert_eq!(G::unary(UnaryOperator::Delete, G::var(s("x"))).to_source(), "delete x");
    assert_eq!(G::unary(UnaryOperator::Void, G::number((0.0f64).to_string())).to_source(), "void 0");
    assert_eq!(G::unary(UnaryOperator::Sub, G::var(s("x"))).to_source(), "-x");
    assert_eq!(G::unary(UnaryOperator::Add, G::var(s("x"))).to_source(), "+x");
    assert_eq!(G::unary(UnaryOperator::BitwiseNot, G::var(s("x"))).to_source(), "~x");
}

#[test]
fn unary_operator_tokens() {
    assert_eq!(UnaryOperator::Add.token(), "+");
    assert_eq!(UnaryOperator::BitwiseNot.token(), "~");
    assert_eq!(UnaryOperator::Delete.token(), "delete ");
    assert_eq!(UnaryOperator::Not.token(), "!");
    assert_eq!(UnaryOperator::Sub.token(), "-");
    assert_eq!(UnaryOperator::Typeof.token(), "typeof ");
    assert_eq!(UnaryOperator::Void.token(), "void ");
}

#[test]
fn binary_operator_tokens() {
    assert_eq!(BinaryOperator::Add.token(), "+");
    assert_eq!(BinaryOperator::And.token(), "&&");
    assert_eq!(BinaryOperator::BitwiseAnd.token(), "&");
    assert_eq!(BinaryOperator::BitwiseOr.token(), "|");
    assert_eq!(BinaryOperator::BitwiseXor.token(), "^");
    assert_eq!(BinaryOperator::Div.token(), "/");
    assert_eq!(BinaryOperator::Eq.token(), "==");
    assert_eq!(BinaryOperator::StrictEq.token(), "===");
    assert_eq!(BinaryOperator::Gt.token(), ">");
    assert_eq!(BinaryOperator::Gte.token(), ">=");
    assert_eq!(BinaryOperator::In.token(), " in ");
    assert_eq!(BinaryOperator::InstanceOf.token(), " instanceof ");
    assert_eq!(BinaryOperator::Lt.token(), "<");
    assert_eq!(BinaryOperator::Lte.token(), "<=");
    assert_eq!(BinaryOperator::Mod.token(), "%");
    assert_eq!(BinaryOperator::Mul.token(), "*");
    assert_eq!(BinaryOperator::NotEq.token(), "!=");
    assert_eq!(BinaryOperator::StrictNotEq.token(), "!==");
    assert_eq!(BinaryOperator::Or.token(), "||");
    assert_eq!(BinaryOperator::Shl.token(), "<<");
    assert_eq!(BinaryOperator::Shr.token(), ">>");
    assert_eq!(BinaryOperator::Sub.token(), "-");
    assert_eq!(BinaryOperator::UnsignedShr.token(), ">>>");
}

#[test]
fn word_operators_keep_spaces() {
    let expr = G::binary(BinaryOperator::In, G::var(s("k")), G::var(s("m")));
    assert_eq!(expr.to_source(), "(k in m)");
    let expr = G::binary(BinaryOperator::InstanceOf, G::var(s("a")), G::var(s("b")));
    assert_eq!(expr.to_source(), "(a instanceof b)");
}

#[test]
fn string_escaping() {
    assert_eq!(G::string(s("hi")).to_source(), "\"hi\"");
    assert_eq!(G::string(s("a\"b")).to_source(), "\"a\\\"b\"");
    assert_eq!(G::string(s("a\\b")).to_source(), "\"a\\\\b\"");
    assert_eq!(G::string(s("a\nb")).to_source(), "\"a\\nb\"");
    assert_eq!(G::string(s("a\rb")).to_source(), "\"a\\rb\"");
    assert_eq!(G::string(s("a\tb")).to_source(), "\"a\\tb\"");
    assert_eq!(G::string(s("a\u{1}b")).to_source(), "\"a\\u{1}b\"");
    assert_eq!(G::string(s("a\u{1f}b")).to_source(), "\"a\\u{1f}b\"");
    assert_eq!(G::string(s("")).to_source(), "\"\"");
}

#[test]
fn number_text_is_spliced_verbatim() {
    assert_eq!(G::number((2.5f64).to_string()).to_source(), "2.5");
    assert_eq!(G::number((-3.0f64).to_string()).to_source(), "-3");
    assert_eq!(G::number((0.1f64).to_string()).to_source(), "0.1");
}

#[test]
fn serialization_is_deterministic() {
    let make = || {
        G::if_(
            G::binary(BinaryOperator::Lt, G::var(s("i")), G::number((10.0f64).to_string())),
            G::block(vec![
                G::expr(G::call(G::var(s("f")), vec![G::var(s("i")), G::string(s("a\"b"))])),
                G::let_(s("o"), Some(G::object(vec![(s("k"), G::array(vec![G::this()]))]))),
            ]),
            Some(G::return_(Some(G::undefined()))),
        )
    };
    let first = make().to_source();
    let second = make().to_source();
    assert_eq!(first, second);
    let tree = make();
    assert_eq!(tree.to_source(), tree.to_source());
}

#[test]
fn nested_statement_rendering() {
    let stmt = G::if_(
        G::bool(true),
        G::block(vec![G::expr(G::var(s("x")))]),
        Some(G::block(vec![G::expr(G::var(s("y")))])),
    );
    assert_eq!(stmt.to_source(), "if(true){x;}else{y;}");
}
