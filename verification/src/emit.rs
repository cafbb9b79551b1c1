//! The code generator: a total, deterministic function from a tree to
//! minified source text.
//!
//! The spec functions `stmt_text` and `expr_text` define, character by
//! character, the text of every statement and expression. The executable
//! serializer writes into a character buffer and is proved to produce
//! exactly that text.
use vstd::prelude::*;
use vstd::std_specs::iter::IteratorSpec;

use crate::BinaryOperator;
use crate::Expr;
use crate::ExprV;
use crate::Stmt;
use crate::StmtV;
use crate::UnaryOperator;
use crate::expr_seq_view;
use crate::expr_view;
use crate::lemma_expr_seq_view;
use crate::lemma_param_seq_view;
use crate::lemma_prop_seq_view;
use crate::lemma_stmt_seq_view;
use crate::param_seq_view;
use crate::prop_seq_view;
use crate::stmt_seq_view;
use crate::stmt_view;

verus! {

/// The token of a prefix operator. The word-shaped tokens end in a space so
/// that they never glue onto the following identifier.
pub open spec fn unop_text(op: UnaryOperator) -> Seq<char> {
    match op {
        UnaryOperator::Add => seq!['+'],
        UnaryOperator::BitwiseNot => seq!['~'],
        UnaryOperator::Delete => seq!['d', 'e', 'l', 'e', 't', 'e', ' '],
        UnaryOperator::Not => seq!['!'],
        UnaryOperator::Sub => seq!['-'],
        UnaryOperator::Typeof => seq!['t', 'y', 'p', 'e', 'o', 'f', ' '],
        UnaryOperator::Void => seq!['v', 'o', 'i', 'd', ' '],
    }
}

/// The token of an infix operator. `In` and `InstanceOf` are surrounded by
/// spaces so that they never glue onto adjacent identifiers.
pub open spec fn binop_text(op: BinaryOperator) -> Seq<char> {
    match op {
        BinaryOperator::Add => seq!['+'],
        BinaryOperator::And => seq!['&', '&'],
        BinaryOperator::BitwiseAnd => seq!['&'],
        BinaryOperator::BitwiseOr => seq!['|'],
        BinaryOperator::BitwiseXor => seq!['^'],
        BinaryOperator::Div => seq!['/'],
        BinaryOperator::Eq => seq!['=', '='],
        BinaryOperator::StrictEq => seq!['=', '=', '='],
        BinaryOperator::Gt => seq!['>'],
        BinaryOperator::Gte => seq!['>', '='],
        BinaryOperator::In => seq![' ', 'i', 'n', ' '],
        BinaryOperator::InstanceOf => seq![' ', 'i', 'n', 's', 't', 'a', 'n', 'c', 'e', 'o', 'f', ' '],
        BinaryOperator::Lt => seq!['<'],
        BinaryOperator::Lte => seq!['<', '='],
        BinaryOperator::Mod => seq!['%'],
        BinaryOperator::Mul => seq!['*'],
        BinaryOperator::NotEq => seq!['!', '='],
        BinaryOperator::StrictNotEq => seq!['!', '=', '='],
        BinaryOperator::Or => seq!['|', '|'],
        BinaryOperator::Shl => seq!['<', '<'],
        BinaryOperator::Shr => seq!['>', '>'],
        BinaryOperator::Sub => seq!['-'],
        BinaryOperator::UnsignedShr => seq!['>', '>', '>'],
    }
}

/// The lower-case hexadecimal digit of a value below sixteen.
pub open spec fn hex_digit(n: int) -> char {
    if n == 0 {
        '0'
    } else if n == 1 {
        '1'
    } else if n == 2 {
        '2'
    } else if n == 3 {
        '3'
    } else if n == 4 {
        '4'
    } else if n == 5 {
        '5'
    } else if n == 6 {
        '6'
    } else if n == 7 {
        '7'
    } else if n == 8 {
        '8'
    } else if n == 9 {
        '9'
    } else if n == 10 {
        'a'
    } else if n == 11 {
        'b'
    } else if n == 12 {
        'c'
    } else if n == 13 {
        'd'
    } else if n == 14 {
        'e'
    } else {
        'f'
    }
}

/// How one character of a string literal is rendered between the quotes:
/// quote and backslash take a backslash, the common control characters take
/// their letter escapes, every other control character is written as a
/// brace-wrapped hexadecimal escape, and all else stands as itself.
pub open spec fn escape_char(c: char) -> Seq<char> {
    if c == '"' {
        seq!['\\', '"']
    } else if c == '\\' {
        seq!['\\', '\\']
    } else if c == '\n' {
        seq!['\\', 'n']
    } else if c == '\r' {
        seq!['\\', 'r']
    } else if c == '\t' {
        seq!['\\', 't']
    } else if (c as u32) < 32 {
        if (c as u32) < 16 {
            seq!['\\', 'u', '{', hex_digit(c as int), '}']
        } else {
            seq!['\\', 'u', '{', '1', hex_digit(c as int - 16), '}']
        }
    } else {
        seq![c]
    }
}

/// The escaped body of a string literal.
pub open spec fn escape_text(s: Seq<char>) -> Seq<char>
    decreases s.len(),
{
    if s.len() == 0 {
        Seq::empty()
    } else {
        escape_char(s[0]) + escape_text(s.drop_first())
    }
}

/// The text of a statement.
pub open spec fn stmt_text(s: StmtV) -> Seq<char>
    decreases s,
{
    match s {
        StmtV::Block(ss) => stmts_text(ss),
        StmtV::Expr(e) => expr_text(e) + seq![';'],
        StmtV::If(c, t, e) => seq!['i', 'f', '('] + expr_text(c) + seq![')', '{'] + stmt_text(*t)
            + seq!['}'] + match e {
            Some(b) => seq!['e', 'l', 's', 'e', '{'] + stmt_text(*b) + seq!['}'],
            None => Seq::empty(),
        },
        StmtV::Return(oe) => match oe {
            Some(e) => seq!['r', 'e', 't', 'u', 'r', 'n', ' '] + expr_text(e) + seq![';'],
            None => seq!['r', 'e', 't', 'u', 'r', 'n', ';'],
        },
        StmtV::Var(n, oe) => seq!['v', 'a', 'r', ' '] + n + (match oe {
            Some(e) => seq!['='] + expr_text(e),
            None => Seq::empty(),
        }) + seq![';'],
        StmtV::While(c, b) => seq!['w', 'h', 'i', 'l', 'e', '('] + expr_text(c) + seq![')', '{']
            + stmt_text(*b) + seq!['}'],
    }
}

/// The text of an expression.
pub open spec fn expr_text(e: ExprV) -> Seq<char>
    decreases e,
{
    match e {
        ExprV::Array(es) => seq!['['] + exprs_join(es) + seq![']'],
        ExprV::Assign(n, v) => n + seq!['='] + expr_text(*v),
        ExprV::Binary(op, l, r) => seq!['('] + expr_text(*l) + binop_text(op) + expr_text(*r)
            + seq![')'],
        ExprV::Bool(b) => if b {
            seq!['t', 'r', 'u', 'e']
        } else {
            seq!['f', 'a', 'l', 's', 'e']
        },
        ExprV::Call(f, args) => expr_text(*f) + seq!['('] + exprs_join(args) + seq![')'],
        ExprV::Function(params, body) => seq!['f', 'u', 'n', 'c', 't', 'i', 'o', 'n', '(']
            + params_join(params) + seq![')', '{'] + stmts_text(body) + seq!['}'],
        ExprV::Member(o, f) => match *f {
            ExprV::String(key) => expr_text(*o) + seq!['.'] + key,
            _ => expr_text(*o) + seq!['['] + expr_text(*f) + seq![']'],
        },
        ExprV::Null => seq!['n', 'u', 'l', 'l'],
        ExprV::Number(t) => t,
        ExprV::Object(kvs) => seq!['{'] + props_join(kvs) + seq!['}'],
        ExprV::String(sv) => seq!['"'] + escape_text(sv) + seq!['"'],
        ExprV::This => seq!['t', 'h', 'i', 's'],
        ExprV::Unary(op, a) => unop_text(op) + expr_text(*a),
        ExprV::Undefined => seq!['u', 'n', 'd', 'e', 'f', 'i', 'n', 'e', 'd'],
        ExprV::Var(n) => n,
    }
}

/// The concatenated texts of a run of statements; statements self-terminate,
/// so no separator is added.
pub open spec fn stmts_text(ss: Seq<StmtV>) -> Seq<char>
    decreases ss,
{
    if ss.len() == 0 {
        Seq::empty()
    } else {
        stmt_text(ss[0]) + stmts_text(ss.drop_first())
    }
}

/// The texts of a run of expressions, joined by commas.
pub open spec fn exprs_join(es: Seq<ExprV>) -> Seq<char>
    decreases es,
{
    if es.len() == 0 {
        Seq::empty()
    } else if es.len() == 1 {
        expr_text(es[0])
    } else {
        expr_text(es[0]) + seq![','] + exprs_join(es.drop_first())
    }
}

/// Parameter names joined by commas.
pub open spec fn params_join(ps: Seq<Seq<char>>) -> Seq<char>
    decreases ps.len(),
{
    if ps.len() == 0 {
        Seq::empty()
    } else if ps.len() == 1 {
        ps[0]
    } else {
        ps[0] + seq![','] + params_join(ps.drop_first())
    }
}

/// Object properties as `key:value`, joined by commas, in declared order.
pub open spec fn props_join(kvs: Seq<(Seq<char>, ExprV)>) -> Seq<char>
    decreases kvs,
{
    if kvs.len() == 0 {
        Seq::empty()
    } else if kvs.len() == 1 {
        kvs[0].0 + seq![':'] + expr_text(kvs[0].1)
    } else {
        kvs[0].0 + seq![':'] + expr_text(kvs[0].1) + seq![','] + props_join(kvs.drop_first())
    }
}

/// Escaping one more character extends the escaped text on the right.
pub proof fn lemma_escape_text_push(s: Seq<char>, c: char)
    ensures
        escape_text(s.push(c)) == escape_text(s) + escape_char(c),
    decreases s.len(),
{
    if s.len() == 0 {
        assert(s.push(c).drop_first() =~= Seq::<char>::empty());
        assert(escape_text(s.push(c).drop_first()) == Seq::<char>::empty());
        assert(escape_text(s) == Seq::<char>::empty());
        assert(s.push(c)[0] == c);
        assert(escape_text(s.push(c)) =~= escape_text(s) + escape_char(c));
    } else {
        assert(s.push(c).drop_first() =~= s.drop_first().push(c));
        lemma_escape_text_push(s.drop_first(), c);
        assert(s.push(c)[0] == s[0]);
        assert(escape_text(s.push(c)) == escape_char(s[0]) + (escape_text(s.drop_first())
            + escape_char(c)));
        assert(escape_text(s.push(c)) =~= escape_text(s) + escape_char(c));
    }
}

/// Appending a statement extends the concatenated text on the right.
pub proof fn lemma_stmts_text_push(ss: Seq<StmtV>, s: StmtV)
    ensures
        stmts_text(ss.push(s)) == stmts_text(ss) + stmt_text(s),
    decreases ss.len(),
{
    if ss.len() == 0 {
        assert(ss.push(s).drop_first() =~= Seq::<StmtV>::empty());
        assert(stmts_text(ss.push(s).drop_first()) == Seq::<char>::empty());
        assert(stmts_text(ss) == Seq::<char>::empty());
        assert(ss.push(s)[0] == s);
        assert(stmts_text(ss.push(s)) =~= stmts_text(ss) + stmt_text(s));
    } else {
        assert(ss.push(s).drop_first() =~= ss.drop_first().push(s));
        lemma_stmts_text_push(ss.drop_first(), s);
        assert(ss.push(s)[0] == ss[0]);
        assert(stmts_text(ss.push(s)) == stmt_text(ss[0]) + (stmts_text(ss.drop_first())
            + stmt_text(s)));
        assert(stmts_text(ss.push(s)) =~= stmts_text(ss) + stmt_text(s));
    }
}

/// Appending an expression to a comma-joined run appends a comma (when the
/// run was not empty) and the expression's text.
pub proof fn lemma_exprs_join_push(es: Seq<ExprV>, e: ExprV)
    ensures
        exprs_join(es.push(e)) == if es.len() == 0 {
            expr_text(e)
        } else {
            exprs_join(es) + seq![','] + expr_text(e)
        },
    decreases es.len(),
{
    if es.len() == 0 {
        assert(exprs_join(es.push(e)) == expr_text(es.push(e)[0]));
    } else {
        assert(es.push(e).drop_first() =~= es.drop_first().push(e));
        lemma_exprs_join_push(es.drop_first(), e);
        if es.len() == 1 {
            assert(exprs_join(es.push(e)) =~= exprs_join(es) + seq![','] + expr_text(e));
        } else {
            assert(exprs_join(es.push(e)) =~= exprs_join(es) + seq![','] + expr_text(e));
        }
    }
}

/// Appending a parameter name to a comma-joined run.
pub proof fn lemma_params_join_push(ps: Seq<Seq<char>>, p: Seq<char>)
    ensures
        params_join(ps.push(p)) == if ps.len() == 0 {
            p
        } else {
            params_join(ps) + seq![','] + p
        },
    decreases ps.len(),
{
    if ps.len() == 0 {
        assert(params_join(ps.push(p)) == ps.push(p)[0]);
    } else {
        assert(ps.push(p).drop_first() =~= ps.drop_first().push(p));
        lemma_params_join_push(ps.drop_first(), p);
        assert(params_join(ps.push(p)) =~= params_join(ps) + seq![','] + p);
    }
}

/// Appending a property to a comma-joined run.
pub proof fn lemma_props_join_push(kvs: Seq<(Seq<char>, ExprV)>, kv: (Seq<char>, ExprV))
    ensures
        props_join(kvs.push(kv)) == if kvs.len() == 0 {
            kv.0 + seq![':'] + expr_text(kv.1)
        } else {
            props_join(kvs) + seq![','] + kv.0 + seq![':'] + expr_text(kv.1)
        },
    decreases kvs.len(),
{
    if kvs.len() == 0 {
        assert(kvs.push(kv)[0] == kv);
        assert(props_join(kvs.push(kv)) =~= kv.0 + seq![':'] + expr_text(kv.1));
    } else {
        assert(kvs.push(kv).drop_first() =~= kvs.drop_first().push(kv));
        lemma_props_join_push(kvs.drop_first(), kv);
        assert(props_join(kvs.push(kv)) =~= props_join(kvs) + seq![','] + kv.0 + seq![':']
            + expr_text(kv.1));
    }
}

/// Appends every character of `s` to `buf`.
fn push_str_chars(buf: &mut Vec<char>, s: &str)
    ensures
        final(buf)@ == old(buf)@ + s@,
{
    let ghost full: Seq<char> = s@;
    let ghost start: Seq<char> = buf@;
    let mut it = s.chars();
    let ghost mut taken: int = 0;
    loop
        invariant
            0 <= taken <= full.len(),
            it.remaining() == full.skip(taken),
            buf@ == start + full.take(taken),
        ensures
            buf@ == start + full,
        decreases full.len() - taken,
    {
        match it.next() {
            Some(c) => {
                proof {
                    assert(c == full.skip(taken)[0]);
                    assert(full.skip(taken).drop_first() =~= full.skip(taken + 1));
                    assert(full.take(taken).push(full[taken]) =~= full.take(taken + 1));
                }
                buf.push(c);
                proof {
                    taken = taken + 1;
                }
            },
            None => {
                proof {
                    assert(full.skip(taken).len() == 0);
                    assert(full.take(taken) =~= full);
                }
                break ;
            },
        }
    }
}

/// The lower-case hexadecimal digit character of a value below sixteen.
fn hex_digit_char(n: u32) -> (r: char)
    requires
        n < 16,
    ensures
        r == hex_digit(n as int),
{
    if n == 0 {
        '0'
    } else if n == 1 {
        '1'
    } else if n == 2 {
        '2'
    } else if n == 3 {
        '3'
    } else if n == 4 {
        '4'
    } else if n == 5 {
        '5'
    } else if n == 6 {
        '6'
    } else if n == 7 {
        '7'
    } else if n == 8 {
        '8'
    } else if n == 9 {
        '9'
    } else if n == 10 {
        'a'
    } else if n == 11 {
        'b'
    } else if n == 12 {
        'c'
    } else if n == 13 {
        'd'
    } else if n == 14 {
        'e'
    } else {
        'f'
    }
}

/// Appends the rendering of one string-literal character to `buf`.
fn push_escaped_char(buf: &mut Vec<char>, c: char)
    ensures
        final(buf)@ == old(buf)@ + escape_char(c),
{
    if c == '"' {
        buf.push('\\');
        buf.push('"');
    } else if c == '\\' {
        buf.push('\\');
        buf.push('\\');
    } else if c == '\n' {
        buf.push('\\');
        buf.push('n');
    } else if c == '\r' {
        buf.push('\\');
        buf.push('r');
    } else if c == '\t' {
        buf.push('\\');
        buf.push('t');
    } else if (c as u32) < 32 {
        buf.push('\\');
        buf.push('u');
        buf.push('{');
        let n = c as u32;
        if n < 16 {
            let d = hex_digit_char(n);
            buf.push(d);
        } else {
            buf.push('1');
            let d = hex_digit_char(n - 16);
            buf.push(d);
        }
        buf.push('}');
    } else {
        buf.push(c);
    }
    assert(buf@ =~= old(buf)@ + escape_char(c));
}

/// Appends the escaped body of a string literal to `buf`.
fn push_escaped(buf: &mut Vec<char>, s: &str)
    ensures
        final(buf)@ == old(buf)@ + escape_text(s@),
{
    let ghost full: Seq<char> = s@;
    let ghost start: Seq<char> = buf@;
    let mut it = s.chars();
    let ghost mut taken: int = 0;
    loop
        invariant
            0 <= taken <= full.len(),
            it.remaining() == full.skip(taken),
            buf@ == start + escape_text(full.take(taken)),
        ensures
            buf@ == start + escape_text(full),
        decreases full.len() - taken,
    {
        match it.next() {
            Some(c) => {
                proof {
                    assert(c == full.skip(taken)[0]);
                    assert(full.skip(taken).drop_first() =~= full.skip(taken + 1));
                    assert(full.take(taken).push(full[taken]) =~= full.take(taken + 1));
                    lemma_escape_text_push(full.take(taken), full[taken]);
                }
                push_escaped_char(buf, c);
                proof {
                    taken = taken + 1;
                }
            },
            None => {
                proof {
                    assert(full.skip(taken).len() == 0);
                    assert(full.take(taken) =~= full);
                }
                break ;
            },
        }
    }
}

/// Appends a prefix operator's token to `buf`.
fn push_unop(buf: &mut Vec<char>, op: UnaryOperator)
    ensures
        final(buf)@ == old(buf)@ + unop_text(op),
{
    match op {
        UnaryOperator::Add => {
            buf.push('+');
        },
        UnaryOperator::BitwiseNot => {
            buf.push('~');
        },
        UnaryOperator::Delete => {
            buf.push('d');
            buf.push('e');
            buf.push('l');
            buf.push('e');
            buf.push('t');
            buf.push('e');
            buf.push(' ');
        },
        UnaryOperator::Not => {
            buf.push('!');
        },
        UnaryOperator::Sub => {
            buf.push('-');
        },
        UnaryOperator::Typeof => {
            buf.push('t');
            buf.push('y');
            buf.push('p');
            buf.push('e');
            buf.push('o');
            buf.push('f');
            buf.push(' ');
        },
        UnaryOperator::Void => {
            buf.push('v');
            buf.push('o');
            buf.push('i');
            buf.push('d');
            buf.push(' ');
        },
    }
    assert(buf@ =~= old(buf)@ + unop_text(op));
}

/// Appends an infix operator's token to `buf`.
fn push_binop(buf: &mut Vec<char>, op: BinaryOperator)
    ensures
        final(buf)@ == old(buf)@ + binop_text(op),
{
    match op {
        BinaryOperator::Add => {
            buf.push('+');
        },
        BinaryOperator::And => {
            buf.push('&');
            buf.push('&');
        },
        BinaryOperator::BitwiseAnd => {
            buf.push('&');
        },
        BinaryOperator::BitwiseOr => {
            buf.push('|');
        },
        BinaryOperator::BitwiseXor => {
            buf.push('^');
        },
        BinaryOperator::Div => {
            buf.push('/');
        },
        BinaryOperator::Eq => {
            buf.push('=');
            buf.push('=');
        },
        BinaryOperator::StrictEq => {
            buf.push('=');
            buf.push('=');
            buf.push('=');
        },
        BinaryOperator::Gt => {
            buf.push('>');
        },
        BinaryOperator::Gte => {
            buf.push('>');
            buf.push('=');
        },
        BinaryOperator::In => {
            buf.push(' ');
            buf.push('i');
            buf.push('n');
            buf.push(' ');
        },
        BinaryOperator::InstanceOf => {
            buf.push(' ');
            buf.push('i');
            buf.push('n');
            buf.push('s');
            buf.push('t');
            buf.push('a');
            buf.push('n');
            buf.push('c');
            buf.push('e');
            buf.push('o');
            buf.push('f');
            buf.push(' ');
        },
        BinaryOperator::Lt => {
            buf.push('<');
        },
        BinaryOperator::Lte => {
            buf.push('<');
            buf.push('=');
        },
        BinaryOperator::Mod => {
            buf.push('%');
        },
        BinaryOperator::Mul => {
            buf.push('*');
        },
        BinaryOperator::NotEq => {
            buf.push('!');
            buf.push('=');
        },
        BinaryOperator::StrictNotEq => {
            buf.push('!');
            buf.push('=');
            buf.push('=');
        },
        BinaryOperator::Or => {
            buf.push('|');
            buf.push('|');
        },
        BinaryOperator::Shl => {
            buf.push('<');
            buf.push('<');
        },
        BinaryOperator::Shr => {
            buf.push('>');
            buf.push('>');
        },
        BinaryOperator::Sub => {
            buf.push('-');
        },
        BinaryOperator::UnsignedShr => {
            buf.push('>');
            buf.push('>');
            buf.push('>');
        },
    }
    assert(buf@ =~= old(buf)@ + binop_text(op));
}

/// Relies on `String`'s `FromIterator` implementation over `char`:
/// collecting a vector's characters yields the string holding exactly those
/// characters, in order.
#[verifier::external_body]
fn chars_to_string(v: &Vec<char>) -> (r: String)
    ensures
        r@ == v@,
{
    v.iter().collect()
}

/// Appends the concatenated texts of a run of statements to `buf`.
fn write_stmts(buf: &mut Vec<char>, ss: &Vec<Stmt>)
    ensures
        final(buf)@ == old(buf)@ + stmts_text(stmt_seq_view(ss@)),
    decreases *ss,
{
    let ghost start = buf@;
    let mut i: usize = 0;
    while i < ss.len()
        invariant
            i <= ss.len(),
            buf@ == start + stmts_text(stmt_seq_view(ss@).take(i as int)),
        decreases ss.len() - i,
    {
        proof {
            lemma_stmt_seq_view(ss@);
            lemma_stmts_text_push(stmt_seq_view(ss@).take(i as int), stmt_view(ss@[i as int]));
            assert(stmt_seq_view(ss@).take(i as int).push(stmt_view(ss@[i as int]))
                =~= stmt_seq_view(ss@).take(i as int + 1));
        }
        write_stmt(buf, &ss[i]);
        i = i + 1;
    }
    proof {
        lemma_stmt_seq_view(ss@);
        assert(stmt_seq_view(ss@).take(ss@.len() as int) =~= stmt_seq_view(ss@));
    }
}

/// Appends the comma-joined texts of a run of expressions to `buf`.
fn write_exprs(buf: &mut Vec<char>, es: &Vec<Expr>)
    ensures
        final(buf)@ == old(buf)@ + exprs_join(expr_seq_view(es@)),
    decreases *es,
{
    let ghost start = buf@;
    let mut i: usize = 0;
    while i < es.len()
        invariant
            i <= es.len(),
            buf@ == start + exprs_join(expr_seq_view(es@).take(i as int)),
        decreases es.len() - i,
    {
        if i > 0 {
            buf.push(',');
        }
        proof {
            lemma_expr_seq_view(es@);
            lemma_exprs_join_push(expr_seq_view(es@).take(i as int), expr_view(es@[i as int]));
            assert(expr_seq_view(es@).take(i as int).push(expr_view(es@[i as int]))
                =~= expr_seq_view(es@).take(i as int + 1));
        }
        write_expr(buf, &es[i]);
        i = i + 1;
        proof {
            assert(buf@ =~= start + exprs_join(expr_seq_view(es@).take(i as int)));
        }
    }
    proof {
        lemma_expr_seq_view(es@);
        assert(expr_seq_view(es@).take(es@.len() as int) =~= expr_seq_view(es@));
    }
}

/// Appends the comma-joined parameter names to `buf`.
fn write_params(buf: &mut Vec<char>, ps: &Vec<String>)
    ensures
        final(buf)@ == old(buf)@ + params_join(param_seq_view(ps@)),
{
    let ghost start = buf@;
    let mut i: usize = 0;
    while i < ps.len()
        invariant
            i <= ps.len(),
            buf@ == start + params_join(param_seq_view(ps@).take(i as int)),
        decreases ps.len() - i,
    {
        if i > 0 {
            buf.push(',');
        }
        proof {
            lemma_param_seq_view(ps@);
            lemma_params_join_push(param_seq_view(ps@).take(i as int), ps@[i as int]@);
            assert(param_seq_view(ps@).take(i as int).push(ps@[i as int]@) =~= param_seq_view(
                ps@,
            ).take(i as int + 1));
        }
        push_str_chars(buf, ps[i].as_str());
        i = i + 1;
        proof {
            assert(buf@ =~= start + params_join(param_seq_view(ps@).take(i as int)));
        }
    }
    proof {
        lemma_param_seq_view(ps@);
        assert(param_seq_view(ps@).take(ps@.len() as int) =~= param_seq_view(ps@));
    }
}

/// Appends the comma-joined `key:value` properties to `buf`.
fn write_props(buf: &mut Vec<char>, kvs: &Vec<(String, Expr)>)
    ensures
        final(buf)@ == old(buf)@ + props_join(prop_seq_view(kvs@)),
    decreases *kvs,
{
    let ghost start = buf@;
    let mut i: usize = 0;
    while i < kvs.len()
        invariant
            i <= kvs.len(),
            buf@ == start + props_join(prop_seq_view(kvs@).take(i as int)),
        decreases kvs.len() - i,
    {
        if i > 0 {
            buf.push(',');
        }
        proof {
            lemma_prop_seq_view(kvs@);
            lemma_props_join_push(
                prop_seq_view(kvs@).take(i as int),
                (kvs@[i as int].0@, expr_view(kvs@[i as int].1)),
            );
            assert(prop_seq_view(kvs@).take(i as int).push(
                (kvs@[i as int].0@, expr_view(kvs@[i as int].1)),
            ) =~= prop_seq_view(kvs@).take(i as int + 1));
        }
        push_str_chars(buf, kvs[i].0.as_str());
        buf.push(':');
        write_expr(buf, &kvs[i].1);
        i = i + 1;
        proof {
            assert(buf@ =~= start + props_join(prop_seq_view(kvs@).take(i as int)));
        }
    }
    proof {
        lemma_prop_seq_view(kvs@);
        assert(prop_seq_view(kvs@).take(kvs@.len() as int) =~= prop_seq_view(kvs@));
    }
}

/// Appends a statement's text to `buf`.
fn write_stmt(buf: &mut Vec<char>, s: &Stmt)
    ensures
        final(buf)@ == old(buf)@ + stmt_text(s@),
    decreases *s,
{
    match s {
        Stmt::Block(stmts) => {
            write_stmts(buf, stmts);
            assert(buf@ =~= old(buf)@ + stmt_text(s@));
        },
        Stmt::Expr(e) => {
            write_expr(buf, e);
            buf.push(';');
            assert(buf@ =~= old(buf)@ + stmt_text(s@));
        },
        Stmt::If(c, t, e) => {
            buf.push('i');
            buf.push('f');
            buf.push('(');
            write_expr(buf, c);
            buf.push(')');
            buf.push('{');
            write_stmt(buf, &**t);
            buf.push('}');
            match e {
                Some(b) => {
                    buf.push('e');
                    buf.push('l');
                    buf.push('s');
                    buf.push('e');
                    buf.push('{');
                    write_stmt(buf, &**b);
                    buf.push('}');
                },
                None => {},
            }
            assert(buf@ =~= old(buf)@ + stmt_text(s@));
        },
        Stmt::Return(oe) => {
            buf.push('r');
            buf.push('e');
            buf.push('t');
            buf.push('u');
            buf.push('r');
            buf.push('n');
            match oe {
                Some(e) => {
                    buf.push(' ');
                    write_expr(buf, e);
                },
                None => {},
            }
            buf.push(';');
            assert(buf@ =~= old(buf)@ + stmt_text(s@));
        },
        Stmt::Var(n, oe) => {
            buf.push('v');
            buf.push('a');
            buf.push('r');
            buf.push(' ');
            push_str_chars(buf, n.as_str());
            match oe {
                Some(e) => {
                    buf.push('=');
                    write_expr(buf, e);
                },
                None => {},
            }
            buf.push(';');
            assert(buf@ =~= old(buf)@ + stmt_text(s@));
        },
        Stmt::While(c, b) => {
            buf.push('w');
            buf.push('h');
            buf.push('i');
            buf.push('l');
            buf.push('e');
            buf.push('(');
            write_expr(buf, c);
            buf.push(')');
            buf.push('{');
            write_stmt(buf, &**b);
            buf.push('}');
            assert(buf@ =~= old(buf)@ + stmt_text(s@));
        },
    }
}

/// Appends an expression's text to `buf`.
fn write_expr(buf: &mut Vec<char>, e: &Expr)
    ensures
        final(buf)@ == old(buf)@ + expr_text(e@),
    decreases *e,
{
    match e {
        Expr::Array(es) => {
            buf.push('[');
            write_exprs(buf, es);
            buf.push(']');
            assert(buf@ =~= old(buf)@ + expr_text(e@));
        },
        Expr::Assign(n, v) => {
            push_str_chars(buf, n.as_str());
            buf.push('=');
            write_expr(buf, &**v);
            assert(buf@ =~= old(buf)@ + expr_text(e@));
        },
        Expr::Binary(op, l, r) => {
            buf.push('(');
            write_expr(buf, &**l);
            push_binop(buf, *op);
            write_expr(buf, &**r);
            buf.push(')');
            assert(buf@ =~= old(buf)@ + expr_text(e@));
        },
        Expr::Bool(b) => {
            if *b {
                buf.push('t');
                buf.push('r');
                buf.push('u');
                buf.push('e');
            } else {
                buf.push('f');
                buf.push('a');
                buf.push('l');
                buf.push('s');
                buf.push('e');
            }
            assert(buf@ =~= old(buf)@ + expr_text(e@));
        },
        Expr::Call(f, args) => {
            write_expr(buf, &**f);
            buf.push('(');
            write_exprs(buf, args);
            buf.push(')');
            assert(buf@ =~= old(buf)@ + expr_text(e@));
        },
        Expr::Function(params, body) => {
            buf.push('f');
            buf.push('u');
            buf.push('n');
            buf.push('c');
            buf.push('t');
            buf.push('i');
            buf.push('o');
            buf.push('n');
            buf.push('(');
            write_params(buf, params);
            buf.push(')');
            buf.push('{');
            write_stmts(buf, body);
            buf.push('}');
            assert(buf@ =~= old(buf)@ + expr_text(e@));
        },
        Expr::Member(o, f) => {
            write_expr(buf, &**o);
            match &**f {
                Expr::String(key) => {
                    buf.push('.');
                    push_str_chars(buf, key.as_str());
                },
                _ => {
                    buf.push('[');
                    write_expr(buf, &**f);
                    buf.push(']');
                    assert(!(expr_view(**f) is String));
                },
            }
            assert(buf@ =~= old(buf)@ + expr_text(e@));
        },
        Expr::Null => {
            buf.push('n');
            buf.push('u');
            buf.push('l');
            buf.push('l');
            assert(buf@ =~= old(buf)@ + expr_text(e@));
        },
        Expr::Number(t) => {
            push_str_chars(buf, t.as_str());
            assert(buf@ =~= old(buf)@ + expr_text(e@));
        },
        Expr::Object(kvs) => {
            buf.push('{');
            write_props(buf, kvs);
            buf.push('}');
            assert(buf@ =~= old(buf)@ + expr_text(e@));
        },
        Expr::String(sv) => {
            buf.push('"');
            push_escaped(buf, sv.as_str());
            buf.push('"');
            assert(buf@ =~= old(buf)@ + expr_text(e@));
        },
        Expr::This => {
            buf.push('t');
            buf.push('h');
            buf.push('i');
            buf.push('s');
            assert(buf@ =~= old(buf)@ + expr_text(e@));
        },
        Expr::Unary(op, a) => {
            push_unop(buf, *op);
            write_expr(buf, &**a);
            assert(buf@ =~= old(buf)@ + expr_text(e@));
        },
        Expr::Undefined => {
            buf.push('u');
            buf.push('n');
            buf.push('d');
            buf.push('e');
            buf.push('f');
            buf.push('i');
            buf.push('n');
            buf.push('e');
            buf.push('d');
            assert(buf@ =~= old(buf)@ + expr_text(e@));
        },
        Expr::Var(n) => {
            push_str_chars(buf, n.as_str());
            assert(buf@ =~= old(buf)@ + expr_text(e@));
        },
    }
}

/// Determinism of statement serialization: the text of a statement is a
/// function of the tree alone, so any two serializations of the same tree
/// are identical, character for character. `Stmt::to_source` ensures that
/// its result is exactly `stmt_text` of the tree's view.
pub proof fn lemma_stmt_serialize_deterministic(s: StmtV, out1: Seq<char>, out2: Seq<char>)
    requires
        out1 == stmt_text(s),
        out2 == stmt_text(s),
    ensures
        out1 == out2,
{
}

/// Determinism of expression serialization; see
/// `lemma_stmt_serialize_deterministic`.
pub proof fn lemma_expr_serialize_deterministic(e: ExprV, out1: Seq<char>, out2: Seq<char>)
    requires
        out1 == expr_text(e),
        out2 == expr_text(e),
    ensures
        out1 == out2,
{
}

impl Stmt {
    /// Renders this statement as minified source text; the result is exactly
    /// `stmt_text` of the statement's view.
    pub fn to_source(&self) -> (r: String)
        ensures
            r@ == stmt_text(self@),
    {
        let mut buf: Vec<char> = Vec::new();
        write_stmt(&mut buf, self);
        chars_to_string(&buf)
    }
}

impl Expr {
    /// Renders this expression as minified source text; the result is exactly
    /// `expr_text` of the expression's view.
    pub fn to_source(&self) -> (r: String)
        ensures
            r@ == expr_text(self@),
    {
        let mut buf: Vec<char> = Vec::new();
        write_expr(&mut buf, self);
        chars_to_string(&buf)
    }
}

impl UnaryOperator {
    /// The operator's surface token.
    pub fn token(self) -> (r: String)
        ensures
            r@ == unop_text(self),
    {
        let mut buf: Vec<char> = Vec::new();
        push_unop(&mut buf, self);
        chars_to_string(&buf)
    }
}

impl BinaryOperator {
    /// The operator's surface token.
    pub fn token(self) -> (r: String)
        ensures
            r@ == binop_text(self),
    {
        let mut buf: Vec<char> = Vec::new();
        push_binop(&mut buf, self);
        chars_to_string(&buf)
    }
}

} // verus!
