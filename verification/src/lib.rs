//! An in-memory representation of a small JavaScript-like language, together
//! with a deterministic code generator and a generic tree-traversal engine.
//!
//! The crate has three parts:
//!  - the node model: the closed statement and expression grammar below;
//!  - the serializer (`emit`): a total function from a tree to minified
//!    source text;
//!  - the traversal engine (`walk`): pre-order/post-order walks, read-only
//!    and rewriting, with a fixed visitation order.
//!
//! Every statement and expression has a mathematical view (`StmtV`, `ExprV`)
//! over which all contracts are stated.
use vstd::prelude::*;

pub mod emit;
pub mod g;
pub mod walk;

verus! {

/// A prefix operator. `Delete`, `Typeof` and `Void` carry a trailing space in
/// their token so that they never glue onto the following identifier.
#[derive(Clone, Copy, Debug, PartialEq, Eq, Structural)]
pub enum UnaryOperator {
    Add,
    BitwiseNot,
    Delete,
    Not,
    Sub,
    Typeof,
    Void,
}

/// An infix operator. `In` and `InstanceOf` carry surrounding spaces in their
/// tokens so that they never glue onto adjacent identifiers.
#[derive(Clone, Copy, Debug, PartialEq, Eq, Structural)]
pub enum BinaryOperator {
    Add,
    And,
    BitwiseAnd,
    BitwiseOr,
    BitwiseXor,
    Div,
    Eq,
    StrictEq,
    Gt,
    Gte,
    In,
    InstanceOf,
    Lt,
    Lte,
    Mod,
    Mul,
    NotEq,
    StrictNotEq,
    Or,
    Shl,
    Shr,
    Sub,
    UnsignedShr,
}

/// A statement node. The tree is strictly single-owned: every child belongs
/// to exactly one parent, so no sharing and no cycles are representable.
#[derive(Debug)]
pub enum Stmt {
    /// An ordered run of statements, rendered as their concatenation; the
    /// enclosing `If`/`While`/function body supplies the braces.
    Block(Vec<Stmt>),
    /// An expression in statement position; rendering appends `;`.
    Expr(Expr),
    /// `if(cond){then}` with an optional `else{..}` branch; both bodies are
    /// always brace-wrapped.
    If(Expr, Box<Stmt>, Option<Box<Stmt>>),
    /// `return;` or `return value;`.
    Return(Option<Expr>),
    /// `var name;` or `var name=init;`. The name is a raw string: the model
    /// performs no identifier-validity checking.
    Var(String, Option<Expr>),
    /// `while(cond){body}`.
    While(Expr, Box<Stmt>),
}

/// An expression node.
#[derive(Debug)]
pub enum Expr {
    /// `[e0,e1,...]`.
    Array(Vec<Expr>),
    /// `name=value`; the target name is a leaf, not a sub-expression.
    Assign(String, Box<Expr>),
    /// `(left op right)`, always fully parenthesized.
    Binary(BinaryOperator, Box<Expr>, Box<Expr>),
    /// `true` or `false`.
    Bool(bool),
    /// `callee(a0,a1,...)`.
    Call(Box<Expr>, Vec<Expr>),
    /// `function(p0,p1,...){body}`; parameter names are leaves.
    Function(Vec<String>, Vec<Stmt>),
    /// Property access: `object.key` when the field is a string literal,
    /// `object[field]` otherwise.
    Member(Box<Expr>, Box<Expr>),
    /// `null`.
    Null,
    /// A numeric literal, held as its decimal rendering (for instance `"1"`
    /// or `"2.5"`): the text that the code generator splices into the
    /// output. A producer turns a machine double into this text.
    Number(String),
    /// `{k0:v0,k1:v1,...}` in declared order; keys are raw strings emitted
    /// unquoted.
    Object(Vec<(String, Expr)>),
    /// A double-quoted string literal; rendering escapes quotes, backslashes
    /// and control characters.
    String(String),
    /// `this`.
    This,
    /// A prefix application, `op operand`.
    Unary(UnaryOperator, Box<Expr>),
    /// `undefined`.
    Undefined,
    /// A variable reference; the name is a leaf.
    Var(String),
}

/// The mathematical model of a statement: the same shape as `Stmt`, with
/// sequences in place of vectors and character sequences in place of strings.
pub enum StmtV {
    Block(Seq<StmtV>),
    Expr(ExprV),
    If(ExprV, Box<StmtV>, Option<Box<StmtV>>),
    Return(Option<ExprV>),
    Var(Seq<char>, Option<ExprV>),
    While(ExprV, Box<StmtV>),
}

/// The mathematical model of an expression.
pub enum ExprV {
    Array(Seq<ExprV>),
    Assign(Seq<char>, Box<ExprV>),
    Binary(BinaryOperator, Box<ExprV>, Box<ExprV>),
    Bool(bool),
    Call(Box<ExprV>, Seq<ExprV>),
    Function(Seq<Seq<char>>, Seq<StmtV>),
    Member(Box<ExprV>, Box<ExprV>),
    Null,
    Number(Seq<char>),
    Object(Seq<(Seq<char>, ExprV)>),
    String(Seq<char>),
    This,
    Unary(UnaryOperator, Box<ExprV>),
    Undefined,
    Var(Seq<char>),
}

pub open spec fn stmt_view(s: Stmt) -> StmtV
    decreases s,
{
    match s {
        Stmt::Block(stmts) => StmtV::Block(stmt_seq_view(stmts@)),
        Stmt::Expr(e) => StmtV::Expr(expr_view(e)),
        Stmt::If(c, t, e) => StmtV::If(
            expr_view(c),
            Box::new(stmt_view(*t)),
            match e {
                Some(b) => Some(Box::new(stmt_view(*b))),
                None => None,
            },
        ),
        Stmt::Return(oe) => StmtV::Return(
            match oe {
                Some(e) => Some(expr_view(e)),
                None => None,
            },
        ),
        Stmt::Var(n, oe) => StmtV::Var(
            n@,
            match oe {
                Some(e) => Some(expr_view(e)),
                None => None,
            },
        ),
        Stmt::While(c, b) => StmtV::While(expr_view(c), Box::new(stmt_view(*b))),
    }
}

pub open spec fn expr_view(e: Expr) -> ExprV
    decreases e,
{
    match e {
        Expr::Array(es) => ExprV::Array(expr_seq_view(es@)),
        Expr::Assign(n, v) => ExprV::Assign(n@, Box::new(expr_view(*v))),
        Expr::Binary(op, l, r) => ExprV::Binary(op, Box::new(expr_view(*l)), Box::new(expr_view(*r))),
        Expr::Bool(b) => ExprV::Bool(b),
        Expr::Call(f, args) => ExprV::Call(Box::new(expr_view(*f)), expr_seq_view(args@)),
        Expr::Function(params, body) => ExprV::Function(param_seq_view(params@), stmt_seq_view(body@)),
        Expr::Member(o, f) => ExprV::Member(Box::new(expr_view(*o)), Box::new(expr_view(*f))),
        Expr::Null => ExprV::Null,
        Expr::Number(t) => ExprV::Number(t@),
        Expr::Object(kvs) => ExprV::Object(prop_seq_view(kvs@)),
        Expr::String(s) => ExprV::String(s@),
        Expr::This => ExprV::This,
        Expr::Unary(op, a) => ExprV::Unary(op, Box::new(expr_view(*a))),
        Expr::Undefined => ExprV::Undefined,
        Expr::Var(n) => ExprV::Var(n@),
    }
}

pub open spec fn stmt_seq_view(ss: Seq<Stmt>) -> Seq<StmtV>
    decreases ss,
{
    if ss.len() == 0 {
        Seq::empty()
    } else {
        seq![stmt_view(ss[0])] + stmt_seq_view(ss.drop_first())
    }
}

pub open spec fn expr_seq_view(es: Seq<Expr>) -> Seq<ExprV>
    decreases es,
{
    if es.len() == 0 {
        Seq::empty()
    } else {
        seq![expr_view(es[0])] + expr_seq_view(es.drop_first())
    }
}

pub open spec fn param_seq_view(ps: Seq<String>) -> Seq<Seq<char>>
    decreases ps,
{
    if ps.len() == 0 {
        Seq::empty()
    } else {
        seq![ps[0]@] + param_seq_view(ps.drop_first())
    }
}

pub open spec fn prop_seq_view(kvs: Seq<(String, Expr)>) -> Seq<(Seq<char>, ExprV)>
    decreases kvs,
{
    if kvs.len() == 0 {
        Seq::empty()
    } else {
        seq![(kvs[0].0@, expr_view(kvs[0].1))] + prop_seq_view(kvs.drop_first())
    }
}

impl View for Stmt {
    type V = StmtV;

    open spec fn view(&self) -> StmtV {
        stmt_view(*self)
    }
}

impl View for Expr {
    type V = ExprV;

    open spec fn view(&self) -> ExprV {
        expr_view(*self)
    }
}

/// The element views of a sequence of statements are the views of its
/// elements, position by position.
pub proof fn lemma_stmt_seq_view(ss: Seq<Stmt>)
    ensures
        stmt_seq_view(ss).len() == ss.len(),
        forall|i: int| 0 <= i < ss.len() ==> stmt_seq_view(ss)[i] == stmt_view(#[trigger] ss[i]),
    decreases ss.len(),
{
    if ss.len() > 0 {
        lemma_stmt_seq_view(ss.drop_first());
        assert forall|i: int| 0 <= i < ss.len() implies stmt_seq_view(ss)[i] == stmt_view(
            #[trigger] ss[i],
        ) by {
            if i > 0 {
                assert(ss.drop_first()[i - 1] == ss[i]);
            }
        }
    }
}

/// The element views of a sequence of expressions, position by position.
pub proof fn lemma_expr_seq_view(es: Seq<Expr>)
    ensures
        expr_seq_view(es).len() == es.len(),
        forall|i: int| 0 <= i < es.len() ==> expr_seq_view(es)[i] == expr_view(#[trigger] es[i]),
    decreases es.len(),
{
    if es.len() > 0 {
        lemma_expr_seq_view(es.drop_first());
        assert forall|i: int| 0 <= i < es.len() implies expr_seq_view(es)[i] == expr_view(
            #[trigger] es[i],
        ) by {
            if i > 0 {
                assert(es.drop_first()[i - 1] == es[i]);
            }
        }
    }
}

/// The element views of a sequence of parameter names, position by position.
pub proof fn lemma_param_seq_view(ps: Seq<String>)
    ensures
        param_seq_view(ps).len() == ps.len(),
        forall|i: int| 0 <= i < ps.len() ==> param_seq_view(ps)[i] == (#[trigger] ps[i])@,
    decreases ps.len(),
{
    if ps.len() > 0 {
        lemma_param_seq_view(ps.drop_first());
        assert forall|i: int| 0 <= i < ps.len() implies param_seq_view(ps)[i] == (
        #[trigger] ps[i])@ by {
            if i > 0 {
                assert(ps.drop_first()[i - 1] == ps[i]);
            }
        }
    }
}

/// The element views of a sequence of object properties, position by position.
pub proof fn lemma_prop_seq_view(kvs: Seq<(String, Expr)>)
    ensures
        prop_seq_view(kvs).len() == kvs.len(),
        forall|i: int|
            0 <= i < kvs.len() ==> prop_seq_view(kvs)[i] == ((#[trigger] kvs[i]).0@, expr_view(
                kvs[i].1,
            )),
    decreases kvs.len(),
{
    if kvs.len() > 0 {
        lemma_prop_seq_view(kvs.drop_first());
        assert forall|i: int|
            0 <= i < kvs.len() implies prop_seq_view(kvs)[i] == ((#[trigger] kvs[i]).0@, expr_view(
            kvs[i].1,
        )) by {
            if i > 0 {
                assert(kvs.drop_first()[i - 1] == kvs[i]);
            }
        }
    }
}

} // verus!
