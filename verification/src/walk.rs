//! The traversal engine: pre-order/post-order walks over a tree, in a
//! read-only form and in a rewriting form, with one fixed visitation order.
//!
//! Both engines take their hooks bundled in a capability object: a type
//! implementing [`Visitor`] (read-only) or [`MutVisitor`] (rewriting). The
//! spec functions `stmt_events` and `expr_events` pin down the exact hook
//! order of the read-only walk; `walk_stmt_mut_spec` and
//! `walk_expr_mut_spec` pin down the result of the rewriting walk.
use vstd::prelude::*;

use crate::Expr;
use crate::ExprV;
use crate::Stmt;
use crate::StmtV;
use crate::emit::expr_text;
use crate::emit::stmt_text;
use crate::expr_seq_view;
use crate::expr_view;
use crate::lemma_expr_seq_view;
use crate::lemma_prop_seq_view;
use crate::lemma_stmt_seq_view;
use crate::prop_seq_view;
use crate::stmt_seq_view;
use crate::stmt_view;

verus! {

/// One hook invocation, carrying the view of the node it visited.
pub enum Event {
    PreStmt(StmtV),
    PostStmt(StmtV),
    PreExpr(ExprV),
    PostExpr(ExprV),
}

/// The exact hook sequence of walking a statement: its pre event, then the
/// events of its children in order, then its post event. The target name of
/// an assignment, parameter names and object keys are leaves and produce no
/// events of their own.
pub open spec fn stmt_events(s: StmtV) -> Seq<Event>
    decreases s,
{
    seq![Event::PreStmt(s)] + (match s {
        StmtV::Block(ss) => stmts_events(ss),
        StmtV::Expr(e) => expr_events(e),
        StmtV::If(c, t, oe) => expr_events(c) + stmt_events(*t) + (match oe {
            Some(b) => stmt_events(*b),
            None => Seq::empty(),
        }),
        StmtV::Return(oe) => match oe {
            Some(e) => expr_events(e),
            None => Seq::empty(),
        },
        StmtV::Var(n, oe) => match oe {
            Some(e) => expr_events(e),
            None => Seq::empty(),
        },
        StmtV::While(c, b) => expr_events(c) + stmt_events(*b),
    }) + seq![Event::PostStmt(s)]
}

/// The exact hook sequence of walking an expression.
pub open spec fn expr_events(e: ExprV) -> Seq<Event>
    decreases e,
{
    seq![Event::PreExpr(e)] + (match e {
        ExprV::Array(es) => exprs_events(es),
        ExprV::Assign(n, v) => expr_events(*v),
        ExprV::Binary(op, l, r) => expr_events(*l) + expr_events(*r),
        ExprV::Bool(b) => Seq::empty(),
        ExprV::Call(f, args) => expr_events(*f) + exprs_events(args),
        ExprV::Function(ps, body) => stmts_events(body),
        ExprV::Member(o, f) => expr_events(*o) + expr_events(*f),
        ExprV::Null => Seq::empty(),
        ExprV::Number(t) => Seq::empty(),
        ExprV::Object(kvs) => props_events(kvs),
        ExprV::String(sv) => Seq::empty(),
        ExprV::This => Seq::empty(),
        ExprV::Unary(op, a) => expr_events(*a),
        ExprV::Undefined => Seq::empty(),
        ExprV::Var(n) => Seq::empty(),
    }) + seq![Event::PostExpr(e)]
}

/// The concatenated events of a run of statements, in sequence order.
pub open spec fn stmts_events(ss: Seq<StmtV>) -> Seq<Event>
    decreases ss,
{
    if ss.len() == 0 {
        Seq::empty()
    } else {
        stmt_events(ss[0]) + stmts_events(ss.drop_first())
    }
}

/// The concatenated events of a run of expressions, in sequence order.
pub open spec fn exprs_events(es: Seq<ExprV>) -> Seq<Event>
    decreases es,
{
    if es.len() == 0 {
        Seq::empty()
    } else {
        expr_events(es[0]) + exprs_events(es.drop_first())
    }
}

/// The concatenated events of an object's property values, in declared
/// order; keys are leaves.
pub open spec fn props_events(kvs: Seq<(Seq<char>, ExprV)>) -> Seq<Event>
    decreases kvs,
{
    if kvs.len() == 0 {
        Seq::empty()
    } else {
        expr_events(kvs[0].1) + props_events(kvs.drop_first())
    }
}

/// Appending a statement appends its events.
pub proof fn lemma_stmts_events_push(ss: Seq<StmtV>, s: StmtV)
    ensures
        stmts_events(ss.push(s)) == stmts_events(ss) + stmt_events(s),
    decreases ss.len(),
{
    if ss.len() == 0 {
        assert(ss.push(s).drop_first() =~= Seq::<StmtV>::empty());
        assert(stmts_events(ss.push(s).drop_first()) == Seq::<Event>::empty());
        assert(stmts_events(ss) == Seq::<Event>::empty());
        assert(ss.push(s)[0] == s);
        assert(stmts_events(ss.push(s)) =~= stmts_events(ss) + stmt_events(s));
    } else {
        assert(ss.push(s).drop_first() =~= ss.drop_first().push(s));
        lemma_stmts_events_push(ss.drop_first(), s);
        assert(ss.push(s)[0] == ss[0]);
        assert(stmts_events(ss.push(s)) == stmt_events(ss[0]) + (stmts_events(ss.drop_first())
            + stmt_events(s)));
        assert(stmts_events(ss.push(s)) =~= stmts_events(ss) + stmt_events(s));
    }
}

/// Appending an expression appends its events.
pub proof fn lemma_exprs_events_push(es: Seq<ExprV>, e: ExprV)
    ensures
        exprs_events(es.push(e)) == exprs_events(es) + expr_events(e),
    decreases es.len(),
{
    if es.len() == 0 {
        assert(es.push(e).drop_first() =~= Seq::<ExprV>::empty());
        assert(exprs_events(es.push(e).drop_first()) == Seq::<Event>::empty());
        assert(exprs_events(es) == Seq::<Event>::empty());
        assert(es.push(e)[0] == e);
        assert(exprs_events(es.push(e)) =~= exprs_events(es) + expr_events(e));
    } else {
        assert(es.push(e).drop_first() =~= es.drop_first().push(e));
        lemma_exprs_events_push(es.drop_first(), e);
        assert(es.push(e)[0] == es[0]);
        assert(exprs_events(es.push(e)) == expr_events(es[0]) + (exprs_events(es.drop_first())
            + expr_events(e)));
        assert(exprs_events(es.push(e)) =~= exprs_events(es) + expr_events(e));
    }
}

/// Appending a property appends its value's events.
pub proof fn lemma_props_events_push(kvs: Seq<(Seq<char>, ExprV)>, kv: (Seq<char>, ExprV))
    ensures
        props_events(kvs.push(kv)) == props_events(kvs) + expr_events(kv.1),
    decreases kvs.len(),
{
    if kvs.len() == 0 {
        assert(kvs.push(kv).drop_first() =~= Seq::<(Seq<char>, ExprV)>::empty());
        assert(props_events(kvs.push(kv).drop_first()) == Seq::<Event>::empty());
        assert(props_events(kvs) == Seq::<Event>::empty());
        assert(kvs.push(kv)[0] == kv);
        assert(props_events(kvs.push(kv)) =~= props_events(kvs) + expr_events(kv.1));
    } else {
        assert(kvs.push(kv).drop_first() =~= kvs.drop_first().push(kv));
        lemma_props_events_push(kvs.drop_first(), kv);
        assert(kvs.push(kv)[0] == kvs[0]);
        assert(props_events(kvs.push(kv)) == expr_events(kvs[0].1) + (props_events(
            kvs.drop_first(),
        ) + expr_events(kv.1)));
        assert(props_events(kvs.push(kv)) =~= props_events(kvs) + expr_events(kv.1));
    }
}

/// Whether an event is a pre-order hook invocation.
pub open spec fn is_pre_event(ev: Event) -> bool {
    ev is PreStmt || ev is PreExpr
}

/// Whether an event is a post-order hook invocation.
pub open spec fn is_post_event(ev: Event) -> bool {
    ev is PostStmt || ev is PostExpr
}

/// The number of pre-order hook invocations in a run of events.
pub open spec fn pre_count(evs: Seq<Event>) -> nat
    decreases evs.len(),
{
    if evs.len() == 0 {
        0
    } else {
        (if is_pre_event(evs[0]) {
            1nat
        } else {
            0nat
        }) + pre_count(evs.drop_first())
    }
}

/// The number of post-order hook invocations in a run of events.
pub open spec fn post_count(evs: Seq<Event>) -> nat
    decreases evs.len(),
{
    if evs.len() == 0 {
        0
    } else {
        (if is_post_event(evs[0]) {
            1nat
        } else {
            0nat
        }) + post_count(evs.drop_first())
    }
}

/// The number of nodes of a statement tree.
pub open spec fn stmt_count(s: StmtV) -> nat
    decreases s,
{
    1 + (match s {
        StmtV::Block(ss) => stmts_count(ss),
        StmtV::Expr(e) => expr_count(e),
        StmtV::If(c, t, oe) => expr_count(c) + stmt_count(*t) + (match oe {
            Some(b) => stmt_count(*b),
            None => 0nat,
        }),
        StmtV::Return(oe) => match oe {
            Some(e) => expr_count(e),
            None => 0nat,
        },
        StmtV::Var(n, oe) => match oe {
            Some(e) => expr_count(e),
            None => 0nat,
        },
        StmtV::While(c, b) => expr_count(c) + stmt_count(*b),
    })
}

/// The number of nodes of an expression tree.
pub open spec fn expr_count(e: ExprV) -> nat
    decreases e,
{
    1 + (match e {
        ExprV::Array(es) => exprs_count(es),
        ExprV::Assign(n, v) => expr_count(*v),
        ExprV::Binary(op, l, r) => expr_count(*l) + expr_count(*r),
        ExprV::Bool(b) => 0nat,
        ExprV::Call(f, args) => expr_count(*f) + exprs_count(args),
        ExprV::Function(ps, body) => stmts_count(body),
        ExprV::Member(o, f) => expr_count(*o) + expr_count(*f),
        ExprV::Null => 0nat,
        ExprV::Number(t) => 0nat,
        ExprV::Object(kvs) => props_count(kvs),
        ExprV::String(sv) => 0nat,
        ExprV::This => 0nat,
        ExprV::Unary(op, a) => expr_count(*a),
        ExprV::Undefined => 0nat,
        ExprV::Var(n) => 0nat,
    })
}

/// The node count of a run of statements.
pub open spec fn stmts_count(ss: Seq<StmtV>) -> nat
    decreases ss,
{
    if ss.len() == 0 {
        0
    } else {
        stmt_count(ss[0]) + stmts_count(ss.drop_first())
    }
}

/// The node count of a run of expressions.
pub open spec fn exprs_count(es: Seq<ExprV>) -> nat
    decreases es,
{
    if es.len() == 0 {
        0
    } else {
        expr_count(es[0]) + exprs_count(es.drop_first())
    }
}

/// The node count of an object's property values.
pub open spec fn props_count(kvs: Seq<(Seq<char>, ExprV)>) -> nat
    decreases kvs,
{
    if kvs.len() == 0 {
        0
    } else {
        expr_count(kvs[0].1) + props_count(kvs.drop_first())
    }
}

/// Event counts distribute over concatenation.
pub proof fn lemma_counts_add(a: Seq<Event>, b: Seq<Event>)
    ensures
        pre_count(a + b) == pre_count(a) + pre_count(b),
        post_count(a + b) == post_count(a) + post_count(b),
    decreases a.len(),
{
    if a.len() == 0 {
        assert(a + b =~= b);
    } else {
        assert((a + b).drop_first() =~= a.drop_first() + b);
        lemma_counts_add(a.drop_first(), b);
        assert((a + b)[0] == a[0]);
    }
}

/// Wrapping a run of events in one pre and one post event adds one to each
/// count and two to the length.
proof fn lemma_wrap_counts(mid: Seq<Event>, pre: Event, post: Event)
    requires
        is_pre_event(pre),
        is_post_event(post),
        !is_post_event(pre),
        !is_pre_event(post),
    ensures
        pre_count(seq![pre] + mid + seq![post]) == 1 + pre_count(mid),
        post_count(seq![pre] + mid + seq![post]) == 1 + post_count(mid),
        (seq![pre] + mid + seq![post]).len() == 2 + mid.len(),
{
    lemma_counts_add(seq![pre], mid);
    lemma_counts_add(seq![pre] + mid, seq![post]);
    assert(seq![pre].drop_first() =~= Seq::<Event>::empty());
    assert(seq![post].drop_first() =~= Seq::<Event>::empty());
    assert(pre_count(Seq::<Event>::empty()) == 0);
    assert(post_count(Seq::<Event>::empty()) == 0);
    assert(pre_count(seq![pre]) == 1);
    assert(post_count(seq![pre]) == 0);
    assert(pre_count(seq![post]) == 0);
    assert(post_count(seq![post]) == 1);
}

/// Traversal completeness for statements: over the hook sequence of a walk,
/// the number of pre-hook invocations, the number of post-hook invocations
/// and the node count coincide, so every node is visited exactly once in
/// each order.
pub proof fn lemma_stmt_traversal_complete(s: StmtV)
    ensures
        pre_count(stmt_events(s)) == stmt_count(s),
        post_count(stmt_events(s)) == stmt_count(s),
        stmt_events(s).len() == 2 * stmt_count(s),
    decreases s,
{
    let pre = Event::PreStmt(s);
    let post = Event::PostStmt(s);
    match s {
        StmtV::Block(ss) => {
            lemma_stmts_traversal_complete(ss);
            lemma_wrap_counts(stmts_events(ss), pre, post);
        },
        StmtV::Expr(e) => {
            lemma_expr_traversal_complete(e);
            lemma_wrap_counts(expr_events(e), pre, post);
        },
        StmtV::If(c, t, oe) => {
            lemma_expr_traversal_complete(c);
            lemma_stmt_traversal_complete(*t);
            lemma_counts_add(expr_events(c), stmt_events(*t));
            match oe {
                Some(b) => {
                    lemma_stmt_traversal_complete(*b);
                    lemma_counts_add(expr_events(c) + stmt_events(*t), stmt_events(*b));
                    lemma_wrap_counts(
                        expr_events(c) + stmt_events(*t) + stmt_events(*b),
                        pre,
                        post,
                    );
                },
                None => {
                    lemma_counts_add(expr_events(c) + stmt_events(*t), Seq::empty());
                    assert(expr_events(c) + stmt_events(*t) + Seq::<Event>::empty() =~= expr_events(
                        c,
                    ) + stmt_events(*t));
                    lemma_wrap_counts(expr_events(c) + stmt_events(*t), pre, post);
                },
            }
        },
        StmtV::Return(oe) => {
            match oe {
                Some(e) => {
                    lemma_expr_traversal_complete(e);
                    lemma_wrap_counts(expr_events(e), pre, post);
                },
                None => {
                    lemma_wrap_counts(Seq::empty(), pre, post);
                },
            }
        },
        StmtV::Var(n, oe) => {
            match oe {
                Some(e) => {
                    lemma_expr_traversal_complete(e);
                    lemma_wrap_counts(expr_events(e), pre, post);
                },
                None => {
                    lemma_wrap_counts(Seq::empty(), pre, post);
                },
            }
        },
        StmtV::While(c, b) => {
            lemma_expr_traversal_complete(c);
            lemma_stmt_traversal_complete(*b);
            lemma_counts_add(expr_events(c), stmt_events(*b));
            lemma_wrap_counts(expr_events(c) + stmt_events(*b), pre, post);
        },
    }
}

/// Traversal completeness for expressions.
pub proof fn lemma_expr_traversal_complete(e: ExprV)
    ensures
        pre_count(expr_events(e)) == expr_count(e),
        post_count(expr_events(e)) == expr_count(e),
        expr_events(e).len() == 2 * expr_count(e),
    decreases e,
{
    let pre = Event::PreExpr(e);
    let post = Event::PostExpr(e);
    match e {
        ExprV::Array(es) => {
            lemma_exprs_traversal_complete(es);
            lemma_wrap_counts(exprs_events(es), pre, post);
        },
        ExprV::Assign(n, v) => {
            lemma_expr_traversal_complete(*v);
            lemma_wrap_counts(expr_events(*v), pre, post);
        },
        ExprV::Binary(op, l, r) => {
            lemma_expr_traversal_complete(*l);
            lemma_expr_traversal_complete(*r);
            lemma_counts_add(expr_events(*l), expr_events(*r));
            lemma_wrap_counts(expr_events(*l) + expr_events(*r), pre, post);
        },
        ExprV::Bool(b) => {
            lemma_wrap_counts(Seq::empty(), pre, post);
        },
        ExprV::Call(f, args) => {
            lemma_expr_traversal_complete(*f);
            lemma_exprs_traversal_complete(args);
            lemma_counts_add(expr_events(*f), exprs_events(args));
            lemma_wrap_counts(expr_events(*f) + exprs_events(args), pre, post);
        },
        ExprV::Function(ps, body) => {
            lemma_stmts_traversal_complete(body);
            lemma_wrap_counts(stmts_events(body), pre, post);
        },
        ExprV::Member(o, f) => {
            lemma_expr_traversal_complete(*o);
            lemma_expr_traversal_complete(*f);
            lemma_counts_add(expr_events(*o), expr_events(*f));
            lemma_wrap_counts(expr_events(*o) + expr_events(*f), pre, post);
        },
        ExprV::Null => {
            lemma_wrap_counts(Seq::empty(), pre, post);
        },
        ExprV::Number(t) => {
            lemma_wrap_counts(Seq::empty(), pre, post);
        },
        ExprV::Object(kvs) => {
            lemma_props_traversal_complete(kvs);
            lemma_wrap_counts(props_events(kvs), pre, post);
        },
        ExprV::String(sv) => {
            lemma_wrap_counts(Seq::empty(), pre, post);
        },
        ExprV::This => {
            lemma_wrap_counts(Seq::empty(), pre, post);
        },
        ExprV::Unary(op, a) => {
            lemma_expr_traversal_complete(*a);
            lemma_wrap_counts(expr_events(*a), pre, post);
        },
        ExprV::Undefined => {
            lemma_wrap_counts(Seq::empty(), pre, post);
        },
        ExprV::Var(n) => {
            lemma_wrap_counts(Seq::empty(), pre, post);
        },
    }
}

/// Traversal completeness for a run of statements.
pub proof fn lemma_stmts_traversal_complete(ss: Seq<StmtV>)
    ensures
        pre_count(stmts_events(ss)) == stmts_count(ss),
        post_count(stmts_events(ss)) == stmts_count(ss),
        stmts_events(ss).len() == 2 * stmts_count(ss),
    decreases ss,
{
    if ss.len() > 0 {
        lemma_stmt_traversal_complete(ss[0]);
        lemma_stmts_traversal_complete(ss.drop_first());
        lemma_counts_add(stmt_events(ss[0]), stmts_events(ss.drop_first()));
    }
}

/// Traversal completeness for a run of expressions.
pub proof fn lemma_exprs_traversal_complete(es: Seq<ExprV>)
    ensures
        pre_count(exprs_events(es)) == exprs_count(es),
        post_count(exprs_events(es)) == exprs_count(es),
        exprs_events(es).len() == 2 * exprs_count(es),
    decreases es,
{
    if es.len() > 0 {
        lemma_expr_traversal_complete(es[0]);
        lemma_exprs_traversal_complete(es.drop_first());
        lemma_counts_add(expr_events(es[0]), exprs_events(es.drop_first()));
    }
}

/// Traversal completeness for an object's property values.
pub proof fn lemma_props_traversal_complete(kvs: Seq<(Seq<char>, ExprV)>)
    ensures
        pre_count(props_events(kvs)) == props_count(kvs),
        post_count(props_events(kvs)) == props_count(kvs),
        props_events(kvs).len() == 2 * props_count(kvs),
    decreases kvs,
{
    if kvs.len() > 0 {
        lemma_expr_traversal_complete(kvs[0].1);
        lemma_props_traversal_complete(kvs.drop_first());
        lemma_counts_add(expr_events(kvs[0].1), props_events(kvs.drop_first()));
    }
}

/// A capability object bundling the four read-only traversal hooks.
///
/// A visitor exposes a ghost log of the hook invocations it has observed
/// (`events`), usually held in a `Ghost` field, and an invariant `inv` that
/// every hook preserves. Each hook's contract says that it appends exactly
/// its own invocation to the log; the engines' contracts then pin the whole
/// hook order down to `stmt_events`/`expr_events`.
pub trait Visitor: Sized {
    /// The implementor's invariant; the engine requires and preserves it.
    spec fn inv(&self) -> bool;

    /// The ghost log of observed hook invocations, oldest first.
    spec fn events(&self) -> Seq<Event>;

    /// Called on a statement before its children are visited.
    fn pre_stmt(&mut self, s: &Stmt)
        requires
            old(self).inv(),
        ensures
            final(self).inv(),
            final(self).events() == old(self).events().push(Event::PreStmt(s@)),
    ;

    /// Called on a statement after its children were visited.
    fn post_stmt(&mut self, s: &Stmt)
        requires
            old(self).inv(),
        ensures
            final(self).inv(),
            final(self).events() == old(self).events().push(Event::PostStmt(s@)),
    ;

    /// Called on an expression before its children are visited.
    fn pre_expr(&mut self, e: &Expr)
        requires
            old(self).inv(),
        ensures
            final(self).inv(),
            final(self).events() == old(self).events().push(Event::PreExpr(e@)),
    ;

    /// Called on an expression after its children were visited.
    fn post_expr(&mut self, e: &Expr)
        requires
            old(self).inv(),
        ensures
            final(self).inv(),
            final(self).events() == old(self).events().push(Event::PostExpr(e@)),
    ;
}

/// Walks a statement read-only: pre-hook, children in order, post-hook.
/// The visitor observes exactly the events of `stmt_events`, appended to
/// whatever it had observed before.
pub fn walk_stmt<V: Visitor>(s: &Stmt, v: &mut V)
    requires
        old(v).inv(),
    ensures
        final(v).inv(),
        final(v).events() == old(v).events() + stmt_events(s@),
    decreases *s,
{
    v.pre_stmt(s);
    let ghost mid = v.events();
    match s {
        Stmt::Block(stmts) => {
            walk_stmts(stmts, v);
        },
        Stmt::Expr(e) => {
            walk_expr(e, v);
        },
        Stmt::If(c, t, oe) => {
            walk_expr(c, v);
            walk_stmt(&**t, v);
            match oe {
                Some(b) => {
                    walk_stmt(&**b, v);
                },
                None => {},
            }
        },
        Stmt::Return(oe) => {
            match oe {
                Some(e) => {
                    walk_expr(e, v);
                },
                None => {},
            }
        },
        Stmt::Var(n, oe) => {
            match oe {
                Some(e) => {
                    walk_expr(e, v);
                },
                None => {},
            }
        },
        Stmt::While(c, b) => {
            walk_expr(c, v);
            walk_stmt(&**b, v);
        },
    }
    v.post_stmt(s);
    proof {
        assert(v.events() =~= old(v).events() + stmt_events(s@));
    }
}

/// Walks an expression read-only: pre-hook, children in order, post-hook.
pub fn walk_expr<V: Visitor>(e: &Expr, v: &mut V)
    requires
        old(v).inv(),
    ensures
        final(v).inv(),
        final(v).events() == old(v).events() + expr_events(e@),
    decreases *e,
{
    v.pre_expr(e);
    let ghost mid = v.events();
    match e {
        Expr::Array(es) => {
            walk_exprs(es, v);
        },
        Expr::Assign(n, val) => {
            walk_expr(&**val, v);
        },
        Expr::Binary(op, l, r) => {
            walk_expr(&**l, v);
            walk_expr(&**r, v);
        },
        Expr::Bool(b) => {},
        Expr::Call(f, args) => {
            walk_expr(&**f, v);
            walk_exprs(args, v);
        },
        Expr::Function(ps, body) => {
            walk_stmts(body, v);
        },
        Expr::Member(o, f) => {
            walk_expr(&**o, v);
            walk_expr(&**f, v);
        },
        Expr::Null => {},
        Expr::Number(t) => {},
        Expr::Object(kvs) => {
            walk_props(kvs, v);
        },
        Expr::String(sv) => {},
        Expr::This => {},
        Expr::Unary(op, a) => {
            walk_expr(&**a, v);
        },
        Expr::Undefined => {},
        Expr::Var(n) => {},
    }
    v.post_expr(e);
    proof {
        assert(v.events() =~= old(v).events() + expr_events(e@));
    }
}

/// Walks a run of statements read-only, in sequence order.
fn walk_stmts<V: Visitor>(ss: &Vec<Stmt>, v: &mut V)
    requires
        old(v).inv(),
    ensures
        final(v).inv(),
        final(v).events() == old(v).events() + stmts_events(stmt_seq_view(ss@)),
    decreases *ss,
{
    let ghost mid = v.events();
    let mut i: usize = 0;
    while i < ss.len()
        invariant
            v.inv(),
            i <= ss.len(),
            v.events() == mid + stmts_events(stmt_seq_view(ss@).take(i as int)),
        decreases ss.len() - i,
    {
        proof {
            lemma_stmt_seq_view(ss@);
            lemma_stmts_events_push(stmt_seq_view(ss@).take(i as int), stmt_view(ss@[i as int]));
            assert(stmt_seq_view(ss@).take(i as int).push(stmt_view(ss@[i as int]))
                =~= stmt_seq_view(ss@).take(i as int + 1));
        }
        walk_stmt(&ss[i], v);
        i = i + 1;
        proof {
            assert(v.events() =~= mid + stmts_events(stmt_seq_view(ss@).take(i as int)));
        }
    }
    proof {
        lemma_stmt_seq_view(ss@);
        assert(stmt_seq_view(ss@).take(ss@.len() as int) =~= stmt_seq_view(ss@));
    }
}

/// Walks an object's property values read-only, in declared order.
fn walk_props<V: Visitor>(kvs: &Vec<(String, Expr)>, v: &mut V)
    requires
        old(v).inv(),
    ensures
        final(v).inv(),
        final(v).events() == old(v).events() + props_events(prop_seq_view(kvs@)),
    decreases *kvs,
{
    let ghost mid = v.events();
    let mut i: usize = 0;
    while i < kvs.len()
        invariant
            v.inv(),
            i <= kvs.len(),
            v.events() == mid + props_events(prop_seq_view(kvs@).take(i as int)),
        decreases kvs.len() - i,
    {
        proof {
            lemma_prop_seq_view(kvs@);
            lemma_props_events_push(
                prop_seq_view(kvs@).take(i as int),
                (kvs@[i as int].0@, expr_view(kvs@[i as int].1)),
            );
            assert(prop_seq_view(kvs@).take(i as int).push(
                (kvs@[i as int].0@, expr_view(kvs@[i as int].1)),
            ) =~= prop_seq_view(kvs@).take(i as int + 1));
        }
        walk_expr(&kvs[i].1, v);
        i = i + 1;
        proof {
            assert(v.events() =~= mid + props_events(prop_seq_view(kvs@).take(i as int)));
        }
    }
    proof {
        lemma_prop_seq_view(kvs@);
        assert(prop_seq_view(kvs@).take(kvs@.len() as int) =~= prop_seq_view(kvs@));
    }
}

/// Which hook fired, for runtime recordings.
#[derive(Clone, Copy, Debug, PartialEq, Eq, Structural)]
pub enum HookKind {
    PreStmt,
    PostStmt,
    PreExpr,
    PostExpr,
}

/// The hook kind of an event.
pub open spec fn event_kind(ev: Event) -> HookKind {
    match ev {
        Event::PreStmt(s) => HookKind::PreStmt,
        Event::PostStmt(s) => HookKind::PostStmt,
        Event::PreExpr(e) => HookKind::PreExpr,
        Event::PostExpr(e) => HookKind::PostExpr,
    }
}

/// The rendered text of the node an event visited.
pub open spec fn event_text(ev: Event) -> Seq<char> {
    match ev {
        Event::PreStmt(s) => stmt_text(s),
        Event::PostStmt(s) => stmt_text(s),
        Event::PreExpr(e) => expr_text(e),
        Event::PostExpr(e) => expr_text(e),
    }
}

/// A visitor that records every hook invocation: at run time the hook kind
/// and the visited node's rendered text, in ghost state the full event.
pub struct Recorder {
    /// The runtime record, in invocation order.
    pub log: Vec<(HookKind, String)>,
    /// The events observed so far, in invocation order.
    pub history: Ghost<Seq<Event>>,
}

impl Recorder {
    /// A recorder with an empty record.
    pub fn new() -> (r: Recorder)
        ensures
            r.inv(),
            r.events() == Seq::<Event>::empty(),
            r.log@.len() == 0,
    {
        Recorder { log: Vec::new(), history: Ghost(Seq::empty()) }
    }
}

impl Visitor for Recorder {
    /// Each runtime entry matches its event: the hook kind, and the visited
    /// node's rendered text.
    open spec fn inv(&self) -> bool {
        &&& self.log@.len() == self.history@.len()
        &&& forall|i: int|
            0 <= i < self.log@.len() ==> (#[trigger] self.log@[i]).0 == event_kind(self.history@[i])
                && self.log@[i].1@ == event_text(self.history@[i])
    }

    open spec fn events(&self) -> Seq<Event> {
        self.history@
    }

    fn pre_stmt(&mut self, s: &Stmt) {
        let text = s.to_source();
        self.log.push((HookKind::PreStmt, text));
        proof {
            self.history@ = self.history@.push(Event::PreStmt(s@));
        }
    }

    fn post_stmt(&mut self, s: &Stmt) {
        let text = s.to_source();
        self.log.push((HookKind::PostStmt, text));
        proof {
            self.history@ = self.history@.push(Event::PostStmt(s@));
        }
    }

    fn pre_expr(&mut self, e: &Expr) {
        let text = e.to_source();
        self.log.push((HookKind::PreExpr, text));
        proof {
            self.history@ = self.history@.push(Event::PreExpr(e@));
        }
    }

    fn post_expr(&mut self, e: &Expr) {
        let text = e.to_source();
        self.log.push((HookKind::PostExpr, text));
        proof {
            self.history@ = self.history@.push(Event::PostExpr(e@));
        }
    }
}

/// Walks a run of expressions read-only, in sequence order.
fn walk_exprs<V: Visitor>(es: &Vec<Expr>, v: &mut V)
    requires
        old(v).inv(),
    ensures
        final(v).inv(),
        final(v).events() == old(v).events() + exprs_events(expr_seq_view(es@)),
    decreases *es,
{
    let ghost mid = v.events();
    let mut i: usize = 0;
    while i < es.len()
        invariant
            v.inv(),
            i <= es.len(),
            v.events() == mid + exprs_events(expr_seq_view(es@).take(i as int)),
        decreases es.len() - i,
    {
        proof {
            lemma_expr_seq_view(es@);
            lemma_exprs_events_push(expr_seq_view(es@).take(i as int), expr_view(es@[i as int]));
            assert(expr_seq_view(es@).take(i as int).push(expr_view(es@[i as int]))
                =~= expr_seq_view(es@).take(i as int + 1));
        }
        walk_expr(&es[i], v);
        i = i + 1;
        proof {
            assert(v.events() =~= mid + exprs_events(expr_seq_view(es@).take(i as int)));
        }
    }
    proof {
        lemma_expr_seq_view(es@);
        assert(expr_seq_view(es@).take(es@.len() as int) =~= expr_seq_view(es@));
    }
}

/// A well-founded size of a statement tree: one for the node itself, one
/// for every sequence slot, plus the sizes of the children. The rewriting
/// walk's termination measure.
pub open spec fn stmt_size(s: StmtV) -> nat
    decreases s,
{
    1 + (match s {
        StmtV::Block(ss) => stmts_size(ss),
        StmtV::Expr(e) => expr_size(e),
        StmtV::If(c, t, oe) => expr_size(c) + stmt_size(*t) + (match oe {
            Some(b) => stmt_size(*b),
            None => 0nat,
        }),
        StmtV::Return(oe) => match oe {
            Some(e) => expr_size(e),
            None => 0nat,
        },
        StmtV::Var(n, oe) => match oe {
            Some(e) => expr_size(e),
            None => 0nat,
        },
        StmtV::While(c, b) => expr_size(c) + stmt_size(*b),
    })
}

/// A well-founded size of an expression tree.
pub open spec fn expr_size(e: ExprV) -> nat
    decreases e,
{
    1 + (match e {
        ExprV::Array(es) => exprs_size(es),
        ExprV::Assign(n, v) => expr_size(*v),
        ExprV::Binary(op, l, r) => expr_size(*l) + expr_size(*r),
        ExprV::Bool(b) => 0nat,
        ExprV::Call(f, args) => expr_size(*f) + exprs_size(args),
        ExprV::Function(ps, body) => stmts_size(body),
        ExprV::Member(o, f) => expr_size(*o) + expr_size(*f),
        ExprV::Null => 0nat,
        ExprV::Number(t) => 0nat,
        ExprV::Object(kvs) => props_size(kvs),
        ExprV::String(sv) => 0nat,
        ExprV::This => 0nat,
        ExprV::Unary(op, a) => expr_size(*a),
        ExprV::Undefined => 0nat,
        ExprV::Var(n) => 0nat,
    })
}

/// The size of a run of statements.
pub open spec fn stmts_size(ss: Seq<StmtV>) -> nat
    decreases ss,
{
    if ss.len() == 0 {
        0
    } else {
        1 + stmt_size(ss[0]) + stmts_size(ss.drop_first())
    }
}

/// The size of a run of expressions.
pub open spec fn exprs_size(es: Seq<ExprV>) -> nat
    decreases es,
{
    if es.len() == 0 {
        0
    } else {
        1 + expr_size(es[0]) + exprs_size(es.drop_first())
    }
}

/// The size of an object's property values.
pub open spec fn props_size(kvs: Seq<(Seq<char>, ExprV)>) -> nat
    decreases kvs,
{
    if kvs.len() == 0 {
        0
    } else {
        1 + expr_size(kvs[0].1) + props_size(kvs.drop_first())
    }
}

/// A capability object bundling the four rewriting traversal hooks.
///
/// Each hook gets exclusive, temporary write access to the current node and
/// may replace it in place; the replacement is visible to the walk of that
/// node's children, to later siblings, and to the node's own post-hook.
/// What a hook does is stated by the four spec functions: each maps the
/// visitor's state and the node's view to the state and view after the
/// hook. A pre-hook's replacement must not enlarge the node (measured by
/// `stmt_size`/`expr_size`): that keeps the walk well-founded when it
/// descends into the replacement's children.
pub trait MutVisitor: Sized {
    /// The implementor's invariant; the engine requires and preserves it.
    spec fn inv(&self) -> bool;

    /// What `pre_stmt` does to the visitor and to the visited statement.
    spec fn on_pre_stmt(&self, s: StmtV) -> (Self, StmtV);

    /// What `post_stmt` does to the visitor and to the visited statement.
    spec fn on_post_stmt(&self, s: StmtV) -> (Self, StmtV);

    /// What `pre_expr` does to the visitor and to the visited expression.
    spec fn on_pre_expr(&self, e: ExprV) -> (Self, ExprV);

    /// What `post_expr` does to the visitor and to the visited expression.
    spec fn on_post_expr(&self, e: ExprV) -> (Self, ExprV);

    /// Called on a statement before its children are visited; may replace
    /// the statement in place without enlarging it.
    fn pre_stmt(&mut self, s: &mut Stmt)
        requires
            old(self).inv(),
        ensures
            final(self).inv(),
            *final(self) == old(self).on_pre_stmt(old(s)@).0,
            final(s)@ == old(self).on_pre_stmt(old(s)@).1,
            stmt_size(final(s)@) <= stmt_size(old(s)@),
    ;

    /// Called on a statement after its children were visited; may replace
    /// the statement in place.
    fn post_stmt(&mut self, s: &mut Stmt)
        requires
            old(self).inv(),
        ensures
            final(self).inv(),
            *final(self) == old(self).on_post_stmt(old(s)@).0,
            final(s)@ == old(self).on_post_stmt(old(s)@).1,
    ;

    /// Called on an expression before its children are visited; may replace
    /// the expression in place without enlarging it.
    fn pre_expr(&mut self, e: &mut Expr)
        requires
            old(self).inv(),
        ensures
            final(self).inv(),
            *final(self) == old(self).on_pre_expr(old(e)@).0,
            final(e)@ == old(self).on_pre_expr(old(e)@).1,
            expr_size(final(e)@) <= expr_size(old(e)@),
    ;

    /// Called on an expression after its children were visited; may replace
    /// the expression in place.
    fn post_expr(&mut self, e: &mut Expr)
        requires
            old(self).inv(),
        ensures
            final(self).inv(),
            *final(self) == old(self).on_post_expr(old(e)@).0,
            final(e)@ == old(self).on_post_expr(old(e)@).1,
    ;
}

/// The pre-hook step as the walk uses it. A hook's own contract already
/// bounds the replacement's size; the bound is repeated here so that the
/// walk is a total, well-founded spec function.
pub open spec fn pre_stmt_step<V: MutVisitor>(v: V, s: StmtV) -> (V, StmtV) {
    let r = v.on_pre_stmt(s);
    if stmt_size(r.1) <= stmt_size(s) {
        r
    } else {
        (r.0, s)
    }
}

/// The pre-hook step for expressions; see `pre_stmt_step`.
pub open spec fn pre_expr_step<V: MutVisitor>(v: V, e: ExprV) -> (V, ExprV) {
    let r = v.on_pre_expr(e);
    if expr_size(r.1) <= expr_size(e) {
        r
    } else {
        (r.0, e)
    }
}

/// The children phase of the rewriting statement walk: every child of the
/// (already pre-hooked) statement is walked left to right and the node is
/// reassembled.
pub open spec fn walk_stmt_children_spec<V: MutVisitor>(v: V, s: StmtV) -> (V, StmtV)
    decreases stmt_size(s), 0int,
{
    match s {
        StmtV::Block(ss) => {
            let r = walk_stmts_mut_spec(v, ss);
            (r.0, StmtV::Block(r.1))
        },
        StmtV::Expr(e) => {
            let r = walk_expr_mut_spec(v, e);
            (r.0, StmtV::Expr(r.1))
        },
        StmtV::If(c, t, oe) => {
            let rc = walk_expr_mut_spec(v, c);
            let rt = walk_stmt_mut_spec(rc.0, *t);
            match oe {
                Some(b) => {
                    let rb = walk_stmt_mut_spec(rt.0, *b);
                    (rb.0, StmtV::If(rc.1, Box::new(rt.1), Some(Box::new(rb.1))))
                },
                None => (rt.0, StmtV::If(rc.1, Box::new(rt.1), None)),
            }
        },
        StmtV::Return(oe) => match oe {
            Some(e) => {
                let r = walk_expr_mut_spec(v, e);
                (r.0, StmtV::Return(Some(r.1)))
            },
            None => (v, StmtV::Return(None)),
        },
        StmtV::Var(n, oe) => match oe {
            Some(e) => {
                let r = walk_expr_mut_spec(v, e);
                (r.0, StmtV::Var(n, Some(r.1)))
            },
            None => (v, StmtV::Var(n, None)),
        },
        StmtV::While(c, b) => {
            let rc = walk_expr_mut_spec(v, c);
            let rb = walk_stmt_mut_spec(rc.0, *b);
            (rb.0, StmtV::While(rc.1, Box::new(rb.1)))
        },
    }
}

/// The children phase of the rewriting expression walk.
pub open spec fn walk_expr_children_spec<V: MutVisitor>(v: V, e: ExprV) -> (V, ExprV)
    decreases expr_size(e), 0int,
{
    match e {
        ExprV::Array(es) => {
            let r = walk_exprs_mut_spec(v, es);
            (r.0, ExprV::Array(r.1))
        },
        ExprV::Assign(n, val) => {
            let r = walk_expr_mut_spec(v, *val);
            (r.0, ExprV::Assign(n, Box::new(r.1)))
        },
        ExprV::Binary(op, l, rr) => {
            let rl = walk_expr_mut_spec(v, *l);
            let rr2 = walk_expr_mut_spec(rl.0, *rr);
            (rr2.0, ExprV::Binary(op, Box::new(rl.1), Box::new(rr2.1)))
        },
        ExprV::Bool(b) => (v, e),
        ExprV::Call(f, args) => {
            let rf = walk_expr_mut_spec(v, *f);
            let ra = walk_exprs_mut_spec(rf.0, args);
            (ra.0, ExprV::Call(Box::new(rf.1), ra.1))
        },
        ExprV::Function(ps, body) => {
            let r = walk_stmts_mut_spec(v, body);
            (r.0, ExprV::Function(ps, r.1))
        },
        ExprV::Member(o, f) => {
            let ro = walk_expr_mut_spec(v, *o);
            let rf = walk_expr_mut_spec(ro.0, *f);
            (rf.0, ExprV::Member(Box::new(ro.1), Box::new(rf.1)))
        },
        ExprV::Null => (v, e),
        ExprV::Number(t) => (v, e),
        ExprV::Object(kvs) => {
            let r = walk_props_mut_spec(v, kvs);
            (r.0, ExprV::Object(r.1))
        },
        ExprV::String(sv) => (v, e),
        ExprV::This => (v, e),
        ExprV::Unary(op, a) => {
            let r = walk_expr_mut_spec(v, *a);
            (r.0, ExprV::Unary(op, Box::new(r.1)))
        },
        ExprV::Undefined => (v, e),
        ExprV::Var(n) => (v, e),
    }
}

/// The rewriting walk of one statement: the pre-hook's replacement, its
/// children left to right, then the post-hook on the reassembled node.
pub open spec fn walk_stmt_mut_spec<V: MutVisitor>(v: V, s: StmtV) -> (V, StmtV)
    decreases stmt_size(s), 1int,
{
    let r1 = pre_stmt_step(v, s);
    let r2 = walk_stmt_children_spec(r1.0, r1.1);
    r2.0.on_post_stmt(r2.1)
}

/// The rewriting walk of one expression.
pub open spec fn walk_expr_mut_spec<V: MutVisitor>(v: V, e: ExprV) -> (V, ExprV)
    decreases expr_size(e), 1int,
{
    let r1 = pre_expr_step(v, e);
    let r2 = walk_expr_children_spec(r1.0, r1.1);
    r2.0.on_post_expr(r2.1)
}

/// The rewriting walk of a run of statements, left to right.
pub open spec fn walk_stmts_mut_spec<V: MutVisitor>(v: V, ss: Seq<StmtV>) -> (V, Seq<StmtV>)
    decreases stmts_size(ss), 0int,
{
    if ss.len() == 0 {
        (v, Seq::empty())
    } else {
        let rh = walk_stmt_mut_spec(v, ss[0]);
        let rt = walk_stmts_mut_spec(rh.0, ss.drop_first());
        (rt.0, seq![rh.1] + rt.1)
    }
}

/// The rewriting walk of a run of expressions, left to right.
pub open spec fn walk_exprs_mut_spec<V: MutVisitor>(v: V, es: Seq<ExprV>) -> (V, Seq<ExprV>)
    decreases exprs_size(es), 0int,
{
    if es.len() == 0 {
        (v, Seq::empty())
    } else {
        let rh = walk_expr_mut_spec(v, es[0]);
        let rt = walk_exprs_mut_spec(rh.0, es.drop_first());
        (rt.0, seq![rh.1] + rt.1)
    }
}

/// The rewriting walk of an object's properties, in declared order; keys
/// are kept, values are walked.
pub open spec fn walk_props_mut_spec<V: MutVisitor>(v: V, kvs: Seq<(Seq<char>, ExprV)>) -> (V, Seq<
    (Seq<char>, ExprV),
>)
    decreases props_size(kvs), 0int,
{
    if kvs.len() == 0 {
        (v, Seq::empty())
    } else {
        let rh = walk_expr_mut_spec(v, kvs[0].1);
        let rt = walk_props_mut_spec(rh.0, kvs.drop_first());
        (rt.0, seq![(kvs[0].0, rh.1)] + rt.1)
    }
}

/// A rewriting pass that renames variable references: in its pre-expression
/// hook, every `Var` whose name equals `from` is replaced by a `Var` named
/// `to`. All other hooks leave the tree unchanged. The replacement is
/// observed by the replaced node's own post-hook and by everything walked
/// after it.
pub struct RenameVisitor {
    /// The name to replace.
    pub from: String,
    /// The replacement name.
    pub to: String,
}

impl RenameVisitor {
    /// A pass renaming `from` to `to`.
    pub fn new(from: String, to: String) -> (r: RenameVisitor)
        ensures
            r.inv(),
            r.from@ == from@,
            r.to@ == to@,
    {
        RenameVisitor { from, to }
    }
}

/// What renaming does to one expression node: a `Var` named `from` becomes
/// a `Var` named `to`; everything else is untouched.
pub open spec fn rename_step(e: ExprV, from: Seq<char>, to: Seq<char>) -> ExprV {
    match e {
        ExprV::Var(n) => if n == from {
            ExprV::Var(to)
        } else {
            ExprV::Var(n)
        },
        _ => e,
    }
}

impl MutVisitor for RenameVisitor {
    open spec fn inv(&self) -> bool {
        true
    }

    open spec fn on_pre_stmt(&self, s: StmtV) -> (Self, StmtV) {
        (*self, s)
    }

    open spec fn on_post_stmt(&self, s: StmtV) -> (Self, StmtV) {
        (*self, s)
    }

    open spec fn on_pre_expr(&self, e: ExprV) -> (Self, ExprV) {
        (*self, rename_step(e, self.from@, self.to@))
    }

    open spec fn on_post_expr(&self, e: ExprV) -> (Self, ExprV) {
        (*self, e)
    }

    fn pre_stmt(&mut self, s: &mut Stmt) {
    }

    fn post_stmt(&mut self, s: &mut Stmt) {
    }

    fn pre_expr(&mut self, e: &mut Expr) {
        let is_target: bool = match &*e {
            Expr::Var(n) => *n == self.from,
            _ => false,
        };
        if is_target {
            let new_name = self.to.clone();
            *e = Expr::Var(new_name);
        }
    }

    fn post_expr(&mut self, e: &mut Expr) {
    }
}

/// The structural renaming of a statement tree: every variable reference
/// named `from` becomes one named `to`; nothing else changes.
pub open spec fn rename_stmt(s: StmtV, from: Seq<char>, to: Seq<char>) -> StmtV
    decreases s,
{
    match s {
        StmtV::Block(ss) => StmtV::Block(rename_stmts(ss, from, to)),
        StmtV::Expr(e) => StmtV::Expr(rename_expr(e, from, to)),
        StmtV::If(c, t, oe) => StmtV::If(
            rename_expr(c, from, to),
            Box::new(rename_stmt(*t, from, to)),
            match oe {
                Some(b) => Some(Box::new(rename_stmt(*b, from, to))),
                None => None,
            },
        ),
        StmtV::Return(oe) => StmtV::Return(
            match oe {
                Some(e) => Some(rename_expr(e, from, to)),
                None => None,
            },
        ),
        StmtV::Var(n, oe) => StmtV::Var(
            n,
            match oe {
                Some(e) => Some(rename_expr(e, from, to)),
                None => None,
            },
        ),
        StmtV::While(c, b) => StmtV::While(
            rename_expr(c, from, to),
            Box::new(rename_stmt(*b, from, to)),
        ),
    }
}

/// The structural renaming of an expression tree.
pub open spec fn rename_expr(e: ExprV, from: Seq<char>, to: Seq<char>) -> ExprV
    decreases e,
{
    match e {
        ExprV::Array(es) => ExprV::Array(rename_exprs(es, from, to)),
        ExprV::Assign(n, v) => ExprV::Assign(n, Box::new(rename_expr(*v, from, to))),
        ExprV::Binary(op, l, r) => ExprV::Binary(
            op,
            Box::new(rename_expr(*l, from, to)),
            Box::new(rename_expr(*r, from, to)),
        ),
        ExprV::Bool(b) => ExprV::Bool(b),
        ExprV::Call(f, args) => ExprV::Call(
            Box::new(rename_expr(*f, from, to)),
            rename_exprs(args, from, to),
        ),
        ExprV::Function(ps, body) => ExprV::Function(ps, rename_stmts(body, from, to)),
        ExprV::Member(o, f) => ExprV::Member(
            Box::new(rename_expr(*o, from, to)),
            Box::new(rename_expr(*f, from, to)),
        ),
        ExprV::Null => ExprV::Null,
        ExprV::Number(t) => ExprV::Number(t),
        ExprV::Object(kvs) => ExprV::Object(rename_props(kvs, from, to)),
        ExprV::String(sv) => ExprV::String(sv),
        ExprV::This => ExprV::This,
        ExprV::Unary(op, a) => ExprV::Unary(op, Box::new(rename_expr(*a, from, to))),
        ExprV::Undefined => ExprV::Undefined,
        ExprV::Var(n) => if n == from {
            ExprV::Var(to)
        } else {
            ExprV::Var(n)
        },
    }
}

/// The structural renaming of a run of statements.
pub open spec fn rename_stmts(ss: Seq<StmtV>, from: Seq<char>, to: Seq<char>) -> Seq<StmtV>
    decreases ss,
{
    if ss.len() == 0 {
        Seq::empty()
    } else {
        seq![rename_stmt(ss[0], from, to)] + rename_stmts(ss.drop_first(), from, to)
    }
}

/// The structural renaming of a run of expressions.
pub open spec fn rename_exprs(es: Seq<ExprV>, from: Seq<char>, to: Seq<char>) -> Seq<ExprV>
    decreases es,
{
    if es.len() == 0 {
        Seq::empty()
    } else {
        seq![rename_expr(es[0], from, to)] + rename_exprs(es.drop_first(), from, to)
    }
}

/// The structural renaming of an object's property values.
pub open spec fn rename_props(kvs: Seq<(Seq<char>, ExprV)>, from: Seq<char>, to: Seq<char>) -> Seq<
    (Seq<char>, ExprV),
>
    decreases kvs,
{
    if kvs.len() == 0 {
        Seq::empty()
    } else {
        seq![(kvs[0].0, rename_expr(kvs[0].1, from, to))] + rename_props(
            kvs.drop_first(),
            from,
            to,
        )
    }
}

/// Rewriting with a `RenameVisitor` computes exactly the structural
/// renaming of the statement and leaves the visitor unchanged: every
/// replacement a pre-hook makes is kept in the walk's result, so a
/// serializer run afterwards observes the replacements, not the originals.
pub proof fn lemma_rename_walk_stmt(v: RenameVisitor, s: StmtV)
    ensures
        walk_stmt_mut_spec(v, s) == (v, rename_stmt(s, v.from@, v.to@)),
    decreases s,
{
    match s {
        StmtV::Block(ss) => {
            lemma_rename_walk_stmts(v, ss);
        },
        StmtV::Expr(e) => {
            lemma_rename_walk_expr(v, e);
        },
        StmtV::If(c, t, oe) => {
            lemma_rename_walk_expr(v, c);
            lemma_rename_walk_stmt(v, *t);
            match oe {
                Some(b) => {
                    lemma_rename_walk_stmt(v, *b);
                },
                None => {},
            }
        },
        StmtV::Return(oe) => {
            match oe {
                Some(e) => {
                    lemma_rename_walk_expr(v, e);
                },
                None => {},
            }
        },
        StmtV::Var(n, oe) => {
            match oe {
                Some(e) => {
                    lemma_rename_walk_expr(v, e);
                },
                None => {},
            }
        },
        StmtV::While(c, b) => {
            lemma_rename_walk_expr(v, c);
            lemma_rename_walk_stmt(v, *b);
        },
    }
}

/// Rewriting with a `RenameVisitor` computes exactly the structural
/// renaming of the expression; see `lemma_rename_walk_stmt`.
pub proof fn lemma_rename_walk_expr(v: RenameVisitor, e: ExprV)
    ensures
        walk_expr_mut_spec(v, e) == (v, rename_expr(e, v.from@, v.to@)),
    decreases e,
{
    match e {
        ExprV::Array(es) => {
            lemma_rename_walk_exprs(v, es);
        },
        ExprV::Assign(n, val) => {
            lemma_rename_walk_expr(v, *val);
        },
        ExprV::Binary(op, l, r) => {
            lemma_rename_walk_expr(v, *l);
            lemma_rename_walk_expr(v, *r);
        },
        ExprV::Bool(b) => {},
        ExprV::Call(f, args) => {
            lemma_rename_walk_expr(v, *f);
            lemma_rename_walk_exprs(v, args);
        },
        ExprV::Function(ps, body) => {
            lemma_rename_walk_stmts(v, body);
        },
        ExprV::Member(o, f) => {
            lemma_rename_walk_expr(v, *o);
            lemma_rename_walk_expr(v, *f);
        },
        ExprV::Null => {},
        ExprV::Number(t) => {},
        ExprV::Object(kvs) => {
            lemma_rename_walk_props(v, kvs);
        },
        ExprV::String(sv) => {},
        ExprV::This => {},
        ExprV::Unary(op, a) => {
            lemma_rename_walk_expr(v, *a);
        },
        ExprV::Undefined => {},
        ExprV::Var(n) => {},
    }
}

/// Renaming a run of statements by walking, element by element.
pub proof fn lemma_rename_walk_stmts(v: RenameVisitor, ss: Seq<StmtV>)
    ensures
        walk_stmts_mut_spec(v, ss) == (v, rename_stmts(ss, v.from@, v.to@)),
    decreases ss,
{
    if ss.len() > 0 {
        lemma_rename_walk_stmt(v, ss[0]);
        lemma_rename_walk_stmts(v, ss.drop_first());
    }
}

/// Renaming a run of expressions by walking, element by element.
pub proof fn lemma_rename_walk_exprs(v: RenameVisitor, es: Seq<ExprV>)
    ensures
        walk_exprs_mut_spec(v, es) == (v, rename_exprs(es, v.from@, v.to@)),
    decreases es,
{
    if es.len() > 0 {
        lemma_rename_walk_expr(v, es[0]);
        lemma_rename_walk_exprs(v, es.drop_first());
    }
}

/// Renaming an object's property values by walking, element by element.
pub proof fn lemma_rename_walk_props(v: RenameVisitor, kvs: Seq<(Seq<char>, ExprV)>)
    ensures
        walk_props_mut_spec(v, kvs) == (v, rename_props(kvs, v.from@, v.to@)),
    decreases kvs,
{
    if kvs.len() > 0 {
        lemma_rename_walk_expr(v, kvs[0].1);
        lemma_rename_walk_props(v, kvs.drop_first());
    }
}

/// Rewrites a statement: pre-hook (which may replace the node), children
/// left to right, post-hook. The returned statement and the visitor's final
/// state are exactly the spec-level walk of the input.
pub fn walk_stmt_mut<V: MutVisitor>(s: Stmt, v: &mut V) -> (r: Stmt)
    requires
        old(v).inv(),
    ensures
        final(v).inv(),
        *final(v) == walk_stmt_mut_spec(*old(v), s@).0,
        r@ == walk_stmt_mut_spec(*old(v), s@).1,
    decreases stmt_size(s@), 1int,
{
    let ghost s0 = s@;
    let mut cur = s;
    v.pre_stmt(&mut cur);
    proof {
        assert(pre_stmt_step(*old(v), s0).0 == *v);
        assert(pre_stmt_step(*old(v), s0).1 == cur@);
    }
    let ghost v1 = *v;
    let ghost s1 = cur@;
    let mid: Stmt = match cur {
        Stmt::Block(ss) => {
            let out = walk_stmts_mut(ss, v);
            Stmt::Block(out)
        },
        Stmt::Expr(e) => Stmt::Expr(walk_expr_mut(e, v)),
        Stmt::If(c, t, oe) => {
            let c2 = walk_expr_mut(c, v);
            let t2 = walk_stmt_mut(*t, v);
            let oe2 = match oe {
                Some(b) => Some(Box::new(walk_stmt_mut(*b, v))),
                None => None,
            };
            Stmt::If(c2, Box::new(t2), oe2)
        },
        Stmt::Return(oe) => {
            match oe {
                Some(e) => Stmt::Return(Some(walk_expr_mut(e, v))),
                None => Stmt::Return(None),
            }
        },
        Stmt::Var(n, oe) => {
            match oe {
                Some(e) => Stmt::Var(n, Some(walk_expr_mut(e, v))),
                None => Stmt::Var(n, None),
            }
        },
        Stmt::While(c, b) => {
            let c2 = walk_expr_mut(c, v);
            let b2 = walk_stmt_mut(*b, v);
            Stmt::While(c2, Box::new(b2))
        },
    };
    proof {
        assert(*v == walk_stmt_children_spec(v1, s1).0);
        assert(mid@ == walk_stmt_children_spec(v1, s1).1);
    }
    let mut res = mid;
    v.post_stmt(&mut res);
    res
}

/// Rewrites an expression: pre-hook, children left to right, post-hook.
pub fn walk_expr_mut<V: MutVisitor>(e: Expr, v: &mut V) -> (r: Expr)
    requires
        old(v).inv(),
    ensures
        final(v).inv(),
        *final(v) == walk_expr_mut_spec(*old(v), e@).0,
        r@ == walk_expr_mut_spec(*old(v), e@).1,
    decreases expr_size(e@), 1int,
{
    let ghost e0 = e@;
    let mut cur = e;
    v.pre_expr(&mut cur);
    proof {
        assert(pre_expr_step(*old(v), e0).0 == *v);
        assert(pre_expr_step(*old(v), e0).1 == cur@);
    }
    let ghost v1 = *v;
    let ghost e1 = cur@;
    let mid: Expr = match cur {
        Expr::Array(es) => {
            let out = walk_exprs_mut(es, v);
            Expr::Array(out)
        },
        Expr::Assign(n, val) => {
            let val2 = walk_expr_mut(*val, v);
            Expr::Assign(n, Box::new(val2))
        },
        Expr::Binary(op, l, r) => {
            let l2 = walk_expr_mut(*l, v);
            let r2 = walk_expr_mut(*r, v);
            Expr::Binary(op, Box::new(l2), Box::new(r2))
        },
        Expr::Bool(b) => Expr::Bool(b),
        Expr::Call(f, args) => {
            let f2 = walk_expr_mut(*f, v);
            let args2 = walk_exprs_mut(args, v);
            Expr::Call(Box::new(f2), args2)
        },
        Expr::Function(ps, body) => {
            let body2 = walk_stmts_mut(body, v);
            Expr::Function(ps, body2)
        },
        Expr::Member(o, f) => {
            let o2 = walk_expr_mut(*o, v);
            let f2 = walk_expr_mut(*f, v);
            Expr::Member(Box::new(o2), Box::new(f2))
        },
        Expr::Null => Expr::Null,
        Expr::Number(t) => Expr::Number(t),
        Expr::Object(kvs) => {
            let kvs2 = walk_props_mut(kvs, v);
            Expr::Object(kvs2)
        },
        Expr::String(sv) => Expr::String(sv),
        Expr::This => Expr::This,
        Expr::Unary(op, a) => {
            let a2 = walk_expr_mut(*a, v);
            Expr::Unary(op, Box::new(a2))
        },
        Expr::Undefined => Expr::Undefined,
        Expr::Var(n) => Expr::Var(n),
    };
    proof {
        assert(*v == walk_expr_children_spec(v1, e1).0);
        assert(mid@ == walk_expr_children_spec(v1, e1).1);
    }
    let mut res = mid;
    v.post_expr(&mut res);
    res
}

/// Rewrites a run of statements, left to right.
fn walk_stmts_mut<V: MutVisitor>(ss: Vec<Stmt>, v: &mut V) -> (r: Vec<Stmt>)
    requires
        old(v).inv(),
    ensures
        final(v).inv(),
        *final(v) == walk_stmts_mut_spec(*old(v), stmt_seq_view(ss@)).0,
        stmt_seq_view(r@) == walk_stmts_mut_spec(*old(v), stmt_seq_view(ss@)).1,
    decreases stmts_size(stmt_seq_view(ss@)), 0int,
{
    let ghost ss0 = ss@;
    let ghost full = stmt_seq_view(ss@);
    let mut rest = ss;
    if rest.len() == 0 {
        rest
    } else {
        let head = rest.remove(0);
        proof {
            assert(head == ss0[0]);
            assert(rest@ =~= ss0.drop_first());
            assert(full == seq![stmt_view(ss0[0])] + stmt_seq_view(ss0.drop_first()));
            assert(full[0] == head@);
            assert(full.drop_first() =~= stmt_seq_view(rest@));
        }
        let head2 = walk_stmt_mut(head, v);
        let rest2 = walk_stmts_mut(rest, v);
        let ghost rest2s = rest2@;
        let ghost rest2v = stmt_seq_view(rest2@);
        let mut out: Vec<Stmt> = Vec::new();
        out.push(head2);
        let mut tail = rest2;
        out.append(&mut tail);
        proof {
            lemma_stmt_seq_view(out@);
            lemma_stmt_seq_view(rest2s);
            assert(out@ =~= seq![head2] + rest2s);
            assert forall|i: int| 0 <= i < out@.len() implies stmt_seq_view(out@)[i] == (
            seq![head2@] + rest2v)[i] by {
                assert(stmt_seq_view(out@)[i] == stmt_view(out@[i]));
                if i > 0 {
                    assert(out@[i] == rest2s[i - 1]);
                    assert(rest2v[i - 1] == stmt_view(rest2s[i - 1]));
                } else {
                    assert(out@[0] == head2);
                }
            }
            assert(stmt_seq_view(out@) =~= seq![head2@] + rest2v);
        }
        out
    }
}

/// Rewrites a run of expressions, left to right.
fn walk_exprs_mut<V: MutVisitor>(es: Vec<Expr>, v: &mut V) -> (r: Vec<Expr>)
    requires
        old(v).inv(),
    ensures
        final(v).inv(),
        *final(v) == walk_exprs_mut_spec(*old(v), expr_seq_view(es@)).0,
        expr_seq_view(r@) == walk_exprs_mut_spec(*old(v), expr_seq_view(es@)).1,
    decreases exprs_size(expr_seq_view(es@)), 0int,
{
    let ghost es0 = es@;
    let ghost full = expr_seq_view(es@);
    let mut rest = es;
    if rest.len() == 0 {
        rest
    } else {
        let head = rest.remove(0);
        proof {
            assert(head == es0[0]);
            assert(rest@ =~= es0.drop_first());
            assert(full == seq![expr_view(es0[0])] + expr_seq_view(es0.drop_first()));
            assert(full[0] == head@);
            assert(full.drop_first() =~= expr_seq_view(rest@));
        }
        let head2 = walk_expr_mut(head, v);
        let rest2 = walk_exprs_mut(rest, v);
        let ghost rest2s = rest2@;
        let ghost rest2v = expr_seq_view(rest2@);
        let mut out: Vec<Expr> = Vec::new();
        out.push(head2);
        let mut tail = rest2;
        out.append(&mut tail);
        proof {
            lemma_expr_seq_view(out@);
            lemma_expr_seq_view(rest2s);
            assert(out@ =~= seq![head2] + rest2s);
            assert forall|i: int| 0 <= i < out@.len() implies expr_seq_view(out@)[i] == (
            seq![head2@] + rest2v)[i] by {
                assert(expr_seq_view(out@)[i] == expr_view(out@[i]));
                if i > 0 {
                    assert(out@[i] == rest2s[i - 1]);
                    assert(rest2v[i - 1] == expr_view(rest2s[i - 1]));
                } else {
                    assert(out@[0] == head2);
                }
            }
            assert(expr_seq_view(out@) =~= seq![head2@] + rest2v);
        }
        out
    }
}

/// Rewrites an object's property values, in declared order; keys are kept.
fn walk_props_mut<V: MutVisitor>(kvs: Vec<(String, Expr)>, v: &mut V) -> (r: Vec<(String, Expr)>)
    requires
        old(v).inv(),
    ensures
        final(v).inv(),
        *final(v) == walk_props_mut_spec(*old(v), prop_seq_view(kvs@)).0,
        prop_seq_view(r@) == walk_props_mut_spec(*old(v), prop_seq_view(kvs@)).1,
    decreases props_size(prop_seq_view(kvs@)), 0int,
{
    let ghost kvs0 = kvs@;
    let ghost full = prop_seq_view(kvs@);
    let mut rest = kvs;
    if rest.len() == 0 {
        rest
    } else {
        let head = rest.remove(0);
        proof {
            assert(head == kvs0[0]);
            assert(rest@ =~= kvs0.drop_first());
            assert(full == seq![(kvs0[0].0@, expr_view(kvs0[0].1))] + prop_seq_view(
                kvs0.drop_first(),
            ));
            assert(full[0] == (head.0@, expr_view(head.1)));
            assert(full.drop_first() =~= prop_seq_view(rest@));
        }
        let key = head.0;
        let ghost keyv = key@;
        let val2 = walk_expr_mut(head.1, v);
        let ghost val2v = val2@;
        let rest2 = walk_props_mut(rest, v);
        let ghost rest2s = rest2@;
        let ghost rest2v = prop_seq_view(rest2@);
        let mut out: Vec<(String, Expr)> = Vec::new();
        out.push((key, val2));
        let mut tail = rest2;
        out.append(&mut tail);
        proof {
            lemma_prop_seq_view(out@);
            lemma_prop_seq_view(rest2s);
            let ghost head_out = (keyv, val2v);
            assert(out@[0].0@ == keyv && out@[0].1@ == val2v);
            assert forall|i: int| 0 <= i < out@.len() implies prop_seq_view(out@)[i] == (
            seq![head_out] + rest2v)[i] by {
                assert(prop_seq_view(out@)[i] == (out@[i].0@, expr_view(out@[i].1)));
                if i > 0 {
                    assert(out@[i] == rest2s[i - 1]);
                    assert(rest2v[i - 1] == (rest2s[i - 1].0@, expr_view(rest2s[i - 1].1)));
                }
            }
            assert(prop_seq_view(out@) =~= seq![head_out] + rest2v);
        }
        out
    }
}

} // verus!
