//! The builder: a stateless set of pure factory functions that assemble
//! well-formed nodes from already-valid components (names, operators,
//! sub-nodes). It performs no validation.
use vstd::prelude::*;

use crate::BinaryOperator;
use crate::Expr;
use crate::ExprV;
use crate::Stmt;
use crate::StmtV;
use crate::UnaryOperator;
use crate::expr_seq_view;
use crate::param_seq_view;
use crate::prop_seq_view;
use crate::stmt_seq_view;

verus! {

/// The node factory. Every constructor returns exactly the node assembled
/// from its arguments, stated over the node's view.
#[derive(Clone, Copy, Debug)]
pub struct G;

impl G {
    /// An ordered run of statements.
    pub fn block(stmts: Vec<Stmt>) -> (r: Stmt)
        ensures
            r@ == StmtV::Block(stmt_seq_view(stmts@)),
    {
        Stmt::Block(stmts)
    }

    /// An expression in statement position.
    pub fn expr(expr: Expr) -> (r: Stmt)
        ensures
            r@ == StmtV::Expr(expr@),
    {
        Stmt::Expr(expr)
    }

    /// A conditional with an optional else-branch.
    pub fn if_(cond: Expr, then: Stmt, else_: Option<Stmt>) -> (r: Stmt)
        ensures
            r@ == StmtV::If(
                cond@,
                Box::new(then@),
                match else_ {
                    Some(s) => Some(Box::new(s@)),
                    None => None,
                },
            ),
    {
        let boxed_else = match else_ {
            Some(s) => Some(Box::new(s)),
            None => None,
        };
        Stmt::If(cond, Box::new(then), boxed_else)
    }

    /// A return statement with an optional value.
    pub fn return_(expr: Option<Expr>) -> (r: Stmt)
        ensures
            r@ == StmtV::Return(
                match expr {
                    Some(e) => Some(e@),
                    None => None,
                },
            ),
    {
        Stmt::Return(expr)
    }

    /// A variable declaration with an optional initializer.
    pub fn let_(name: String, expr: Option<Expr>) -> (r: Stmt)
        ensures
            r@ == StmtV::Var(
                name@,
                match expr {
                    Some(e) => Some(e@),
                    None => None,
                },
            ),
    {
        Stmt::Var(name, expr)
    }

    /// A while loop.
    pub fn while_(expr: Expr, stmt: Stmt) -> (r: Stmt)
        ensures
            r@ == StmtV::While(expr@, Box::new(stmt@)),
    {
        Stmt::While(expr, Box::new(stmt))
    }

    /// An array literal.
    pub fn array(exprs: Vec<Expr>) -> (r: Expr)
        ensures
            r@ == ExprV::Array(expr_seq_view(exprs@)),
    {
        Expr::Array(exprs)
    }

    /// An assignment to a named target.
    pub fn assign(name: String, expr: Expr) -> (r: Expr)
        ensures
            r@ == ExprV::Assign(name@, Box::new(expr@)),
    {
        Expr::Assign(name, Box::new(expr))
    }

    /// An infix application.
    pub fn binary(op: BinaryOperator, left: Expr, right: Expr) -> (r: Expr)
        ensures
            r@ == ExprV::Binary(op, Box::new(left@), Box::new(right@)),
    {
        Expr::Binary(op, Box::new(left), Box::new(right))
    }

    /// A boolean literal.
    pub fn bool(value: bool) -> (r: Expr)
        ensures
            r@ == ExprV::Bool(value),
    {
        Expr::Bool(value)
    }

    /// A call with an ordered run of arguments.
    pub fn call(f: Expr, args: Vec<Expr>) -> (r: Expr)
        ensures
            r@ == ExprV::Call(Box::new(f@), expr_seq_view(args@)),
    {
        Expr::Call(Box::new(f), args)
    }

    /// A function literal with parameter names and a body.
    pub fn function(params: Vec<String>, stmts: Vec<Stmt>) -> (r: Expr)
        ensures
            r@ == ExprV::Function(param_seq_view(params@), stmt_seq_view(stmts@)),
    {
        Expr::Function(params, stmts)
    }

    /// A property access.
    pub fn member(expr: Expr, field: Expr) -> (r: Expr)
        ensures
            r@ == ExprV::Member(Box::new(expr@), Box::new(field@)),
    {
        Expr::Member(Box::new(expr), Box::new(field))
    }

    /// The null literal.
    pub fn null() -> (r: Expr)
        ensures
            r@ == ExprV::Null,
    {
        Expr::Null
    }

    /// A numeric literal, given as its decimal rendering.
    pub fn number(text: String) -> (r: Expr)
        ensures
            r@ == ExprV::Number(text@),
    {
        Expr::Number(text)
    }

    /// An object literal; key order is kept.
    pub fn object(kvs: Vec<(String, Expr)>) -> (r: Expr)
        ensures
            r@ == ExprV::Object(prop_seq_view(kvs@)),
    {
        Expr::Object(kvs)
    }

    /// A string literal.
    pub fn string(string: String) -> (r: Expr)
        ensures
            r@ == ExprV::String(string@),
    {
        Expr::String(string)
    }

    /// The receiver reference.
    pub fn this() -> (r: Expr)
        ensures
            r@ == ExprV::This,
    {
        Expr::This
    }

    /// A prefix application.
    pub fn unary(op: UnaryOperator, expr: Expr) -> (r: Expr)
        ensures
            r@ == ExprV::Unary(op, Box::new(expr@)),
    {
        Expr::Unary(op, Box::new(expr))
    }

    /// The undefined literal.
    pub fn undefined() -> (r: Expr)
        ensures
            r@ == ExprV::Undefined,
    {
        Expr::Undefined
    }

    /// A variable reference.
    pub fn var(name: String) -> (r: Expr)
        ensures
            r@ == ExprV::Var(name@),
    {
        Expr::Var(name)
    }
}

} // verus!
