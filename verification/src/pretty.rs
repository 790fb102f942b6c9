//! The pretty printer: statements back to source text.
//!
//! Binary operations are fully parenthesised and blocks indented by two spaces. Float literals
//! are written as the host writes the double they denote, so the description takes their texts
//! as a parameter: the text of everything else is fixed.
use vstd::prelude::*;
use crate::ast::{ArrayElement, Assignment, AssignmentKind, AssignmentTarget, BinaryOp, ElementV, ElseBranch, ElseV, Expr, ExprV, IfStatement, IfV, IncrementOp, IndexTarget, IndexTargetV, KindV, Literal, LiteralV, Statement, StmtV, TargetV, TypeAnnotation, TypeV, UnaryOp, VarDeclaration, WhileStatement, element_view, elements_view, if_view, if_wf, index_targets_view, type_opt_view, is_compound_op, lemma_elements_view, lemma_statements_view, lemma_stmts_wf, lemma_types_view, statements_view, stmt_wf, stmts_wf};
use crate::text::{chars_of, int_decimal, owned, push_char, push_i64, push_str};
use crate::value::FloatOps;

verus! {

/// How a binary operator is written.
pub open spec fn binary_op_text(op: BinaryOp) -> Seq<char> {
    match op {
        BinaryOp::Add => "+"@,
        BinaryOp::Subtract => "-"@,
        BinaryOp::Multiply => "*"@,
        BinaryOp::Divide => "/"@,
        BinaryOp::Modulo => "%"@,
        BinaryOp::Equal => "=="@,
        BinaryOp::NotEqual => "!="@,
        BinaryOp::Less => "<"@,
        BinaryOp::LessEqual => "<="@,
        BinaryOp::Greater => ">"@,
        BinaryOp::GreaterEqual => ">="@,
        BinaryOp::And => "&&"@,
        BinaryOp::Or => "||"@,
    }
}

/// A string with each `"` written as `\"`.
pub open spec fn escape_quotes(s: Seq<char>) -> Seq<char>
    decreases s.len(),
{
    if s.len() == 0 {
        Seq::empty()
    } else {
        escape_quotes(s.drop_last()) + if s.last() == '"' { seq!['\\', '"'] } else { seq![s.last()] }
    }
}

/// The number of float literals in an expression.
pub open spec fn expr_floats(e: ExprV) -> nat
    decreases e, 1nat,
{
    match e {
        ExprV::Literal(lit) => match lit {
            LiteralV::Float(_) => 1,
            LiteralV::Array(els) => elements_floats(els),
            _ => 0,
        },
        ExprV::Variable(_) => 0,
        ExprV::Index { target, index } => expr_floats(*target) + expr_floats(*index),
        ExprV::Unary { op, expr } => expr_floats(*expr),
        ExprV::Binary { left, op, right } => expr_floats(*left) + expr_floats(*right),
    }
}

/// The number of float literals in an array element.
pub open spec fn element_floats(el: ElementV) -> nat
    decreases el, 0nat,
{
    match el {
        ElementV::Value(x) => expr_floats(x),
        ElementV::KeyValue { key, value } => expr_floats(key) + expr_floats(value),
    }
}

/// The number of float literals in array elements.
pub open spec fn elements_floats(els: Seq<ElementV>) -> nat
    decreases els, 0nat,
{
    if els.len() == 0 {
        0
    } else {
        elements_floats(els.drop_last()) + element_floats(els.last())
    }
}

/// The text of an expression whose float literals, in the order they occur, are written `fs`.
/// Binary operations are fully parenthesised; the operand of a unary operator is parenthesised
/// unless it is a literal or a variable.
pub open spec fn fmt_expr(e: ExprV, fs: Seq<Seq<char>>) -> Seq<char>
    decreases e, 1nat,
{
    match e {
        ExprV::Literal(lit) => match lit {
            LiteralV::Integer(v) => int_decimal(v as int),
            LiteralV::Float(_) => fs[0],
            LiteralV::Bool(b) => if b { "true"@ } else { "false"@ },
            LiteralV::Str(s) => "\""@ + escape_quotes(s) + "\""@,
            LiteralV::Array(els) => "["@ + fmt_elements(els, fs) + "]"@,
        },
        ExprV::Variable(n) => n,
        ExprV::Index { target, index } => {
            let c = expr_floats(*target) as int;
            fmt_expr(*target, fs.take(c)) + "["@ + fmt_expr(*index, fs.skip(c)) + "]"@
        },
        ExprV::Unary { op, expr } => {
            let sign: Seq<char> = if op == UnaryOp::Negate { "-"@ } else { "!"@ };
            sign + match *expr {
                ExprV::Literal(_) | ExprV::Variable(_) => fmt_expr(*expr, fs),
                _ => "("@ + fmt_expr(*expr, fs) + ")"@,
            }
        },
        ExprV::Binary { left, op, right } => {
            let c = expr_floats(*left) as int;
            "("@ + fmt_expr(*left, fs.take(c)) + " "@ + binary_op_text(op) + " "@ + fmt_expr(*right, fs.skip(c)) + ")"@
        },
    }
}

/// The text of an array element.
pub open spec fn fmt_element(el: ElementV, fs: Seq<Seq<char>>) -> Seq<char>
    decreases el, 0nat,
{
    match el {
        ElementV::Value(x) => fmt_expr(x, fs),
        ElementV::KeyValue { key, value } => {
            let c = expr_floats(key) as int;
            fmt_expr(key, fs.take(c)) + " => "@ + fmt_expr(value, fs.skip(c))
        },
    }
}

/// The elements of an array literal joined by `, `.
pub open spec fn fmt_elements(els: Seq<ElementV>, fs: Seq<Seq<char>>) -> Seq<char>
    decreases els, 0nat,
{
    if els.len() == 0 {
        Seq::empty()
    } else {
        let c = elements_floats(els.drop_last()) as int;
        let item = fmt_element(els.last(), fs.skip(c));
        if els.len() == 1 {
            item
        } else {
            fmt_elements(els.drop_last(), fs.take(c)) + ", "@ + item
        }
    }
}

/// The text of a type: its name, and its generic arguments between `<` and `>`.
pub open spec fn fmt_type(t: TypeV) -> Seq<char>
    decreases t, 1int,
{
    if t.generics.len() == 0 {
        t.name
    } else {
        t.name + "<"@ + fmt_types(t.generics, 0) + ">"@
    }
}

/// The types from position `i` on, joined by `, `.
pub open spec fn fmt_types(ts: Seq<TypeV>, i: int) -> Seq<char>
    decreases ts, ts.len() - i,
{
    if i < 0 || i >= ts.len() {
        Seq::empty()
    } else if i + 1 < ts.len() {
        fmt_type(ts[i]) + ", "@ + fmt_types(ts, i + 1)
    } else {
        fmt_type(ts[i])
    }
}

/// The number of float literals in the indices of an assignment target.
pub open spec fn indices_floats(idx: Seq<IndexTargetV>) -> nat
    decreases idx.len(),
{
    if idx.len() == 0 {
        0
    } else {
        indices_floats(idx.drop_last()) + match idx.last() {
            IndexTargetV::Append => 0,
            IndexTargetV::Index(x) => expr_floats(x),
        }
    }
}

/// The indices of an assignment target, each in brackets.
pub open spec fn fmt_indices(idx: Seq<IndexTargetV>, fs: Seq<Seq<char>>) -> Seq<char>
    decreases idx.len(),
{
    if idx.len() == 0 {
        Seq::empty()
    } else {
        let c = indices_floats(idx.drop_last()) as int;
        fmt_indices(idx.drop_last(), fs.take(c)) + match idx.last() {
            IndexTargetV::Append => "[]"@,
            IndexTargetV::Index(x) => "["@ + fmt_expr(x, fs.skip(c)) + "]"@,
        }
    }
}

/// The number of float literals in an assignment target.
pub open spec fn target_floats(t: TargetV) -> nat {
    match t {
        TargetV::Name(_) => 0,
        TargetV::Indexed { name, indices } => indices_floats(indices),
    }
}

/// The text of an assignment target.
pub open spec fn fmt_target(t: TargetV, fs: Seq<Seq<char>>) -> Seq<char> {
    match t {
        TargetV::Name(n) => n,
        TargetV::Indexed { name, indices } => name + fmt_indices(indices, fs),
    }
}

/// The number of float literals in a statement, nested ones included.
pub open spec fn stmt_floats(s: StmtV) -> nat
    decreases s, 1nat,
{
    match s {
        StmtV::Let { name, ty, mutable, value } => match value {
            Some(v) => expr_floats(v),
            None => 0,
        },
        StmtV::Assign { target, kind } => target_floats(target) + match kind {
            KindV::Simple(x) => expr_floats(x),
            KindV::Compound { op, expr } => expr_floats(expr),
            KindV::Increment(_) => 0,
        },
        StmtV::Echo(x) => expr_floats(x),
        StmtV::If(i) => if_floats(i),
        StmtV::While { condition, body } => expr_floats(condition) + block_floats(body),
        _ => 0,
    }
}

/// The number of float literals in statements.
pub open spec fn block_floats(ss: Seq<StmtV>) -> nat
    decreases ss, 0nat,
{
    if ss.len() == 0 {
        0
    } else {
        block_floats(ss.drop_last()) + stmt_floats(ss.last())
    }
}

/// The number of float literals in an `if` statement.
pub open spec fn if_floats(i: IfV) -> nat
    decreases i, 0nat,
{
    expr_floats(i.condition) + block_floats(i.then_branch) + match i.else_branch {
        None => 0,
        Some(b) => match *b {
            ElseV::If(n) => if_floats(n),
            ElseV::Block(bl) => block_floats(bl),
        },
    }
}

/// The text of a declaration's head: `let`, `fix` for an immutable one, the name and the type.
pub open spec fn let_head(name: Seq<char>, ty: Option<TypeV>, mutable: bool) -> Seq<char> {
    "let "@ + (if mutable { Seq::empty() } else { "fix "@ }) + name + match ty {
        Some(t) => ": "@ + fmt_type(t),
        None => Seq::empty(),
    }
}

/// The text of a statement whose float literals, in order, are written `fs`.
pub open spec fn fmt_stmt(s: StmtV, fs: Seq<Seq<char>>) -> Seq<char>
    decreases s, 1nat,
{
    match s {
        StmtV::Let { name, ty, mutable, value } => let_head(name, ty, mutable) + match value {
            Some(v) => " = "@ + fmt_expr(v, fs),
            None => Seq::empty(),
        },
        StmtV::Assign { target, kind } => {
            let c = target_floats(target) as int;
            fmt_target(target, fs.take(c)) + match kind {
                KindV::Simple(x) => " = "@ + fmt_expr(x, fs.skip(c)),
                KindV::Compound { op, expr } => " "@ + binary_op_text(op) + "= "@ + fmt_expr(expr, fs.skip(c)),
                KindV::Increment(op) => if op == IncrementOp::Increment { "++"@ } else { "--"@ },
            }
        },
        StmtV::Echo(x) => "echo "@ + fmt_expr(x, fs),
        StmtV::If(i) => fmt_if(i, fs),
        StmtV::While { condition, body } => {
            let c = expr_floats(condition) as int;
            "while ("@ + fmt_expr(condition, fs.take(c)) + ") "@ + fmt_block(body, fs.skip(c))
        },
        StmtV::Break => "break"@,
        StmtV::Continue => "continue"@,
    }
}

/// The text of a block: `{}` when empty, otherwise each statement on a line of its own, indented
/// by two spaces, between `{` and `}`.
pub open spec fn fmt_block(ss: Seq<StmtV>, fs: Seq<Seq<char>>) -> Seq<char>
    decreases ss, 1nat,
{
    if ss.len() == 0 {
        "{}"@
    } else {
        "{\n"@ + fmt_lines(ss, fs) + "}"@
    }
}

/// The statements of a block, each on an indented line.
pub open spec fn fmt_lines(ss: Seq<StmtV>, fs: Seq<Seq<char>>) -> Seq<char>
    decreases ss, 0nat,
{
    if ss.len() == 0 {
        Seq::empty()
    } else {
        let c = block_floats(ss.drop_last()) as int;
        fmt_lines(ss.drop_last(), fs.take(c)) + "  "@ + fmt_stmt(ss.last(), fs.skip(c)) + "\n"@
    }
}

/// The text of an `if` statement.
pub open spec fn fmt_if(i: IfV, fs: Seq<Seq<char>>) -> Seq<char>
    decreases i, 0nat,
{
    let c1 = expr_floats(i.condition) as int;
    let c2 = c1 + block_floats(i.then_branch);
    "if ("@ + fmt_expr(i.condition, fs.take(c1)) + ") "@ + fmt_block(i.then_branch, fs.subrange(c1, c2))
        + match i.else_branch {
            None => Seq::empty(),
            Some(b) => match *b {
                ElseV::If(n) => " else "@ + fmt_if(n, fs.skip(c2)),
                ElseV::Block(bl) => " else "@ + fmt_block(bl, fs.skip(c2)),
            },
        }
}

/// Whether `t` is the text of the expression, its float literals written some way.
pub open spec fn shows_expr(t: Seq<char>, e: ExprV) -> bool {
    exists|fs: Seq<Seq<char>>| #![trigger fmt_expr(e, fs)] fs.len() == expr_floats(e) && t == fmt_expr(e, fs)
}

/// Whether `t` is the text of the statement, its float literals written some way.
pub open spec fn shows_stmt(t: Seq<char>, s: StmtV) -> bool {
    exists|fs: Seq<Seq<char>>| #![trigger fmt_stmt(s, fs)] fs.len() == stmt_floats(s) && t == fmt_stmt(s, fs)
}

/// How a binary operator is written.
pub fn format_binary_op(op: BinaryOp) -> (r: &'static str)
    ensures
        r@ == binary_op_text(op),
{
    match op {
        BinaryOp::Add => "+",
        BinaryOp::Subtract => "-",
        BinaryOp::Multiply => "*",
        BinaryOp::Divide => "/",
        BinaryOp::Modulo => "%",
        BinaryOp::Equal => "==",
        BinaryOp::NotEqual => "!=",
        BinaryOp::Less => "<",
        BinaryOp::LessEqual => "<=",
        BinaryOp::Greater => ">",
        BinaryOp::GreaterEqual => ">=",
        BinaryOp::And => "&&",
        BinaryOp::Or => "||",
    }
}

/// How the operator of a compound assignment is written, before its `=`.
pub fn format_compound_op(op: BinaryOp) -> (r: &'static str)
    requires
        is_compound_op(op),
    ensures
        r@ == binary_op_text(op),
{
    match op {
        BinaryOp::Add => "+",
        BinaryOp::Subtract => "-",
        BinaryOp::Multiply => "*",
        BinaryOp::Divide => "/",
        _ => "%",
    }
}

/// The text of a type.
pub fn format_type_annotation(annotation: &TypeAnnotation) -> (r: String)
    ensures
        r@ == fmt_type(annotation@),
    decreases annotation,
{
    proof { lemma_types_view(annotation.generics@); }
    let n = annotation.generics.len();
    if n == 0 {
        return annotation.name.clone();
    }
    let ghost tv = annotation@;
    let mut out = annotation.name.clone();
    push_str(&mut out, "<");
    let mut k: usize = 0;
    while k < n
        invariant
            n == annotation.generics@.len(),
            n > 0,
            tv == annotation@,
            tv.generics.len() == n,
            forall|j: int| 0 <= j < n ==> #[trigger] tv.generics[j] == annotation.generics@[j]@,
            k <= n,
            out@ + fmt_types(tv.generics, k as int) == tv.name + "<"@ + fmt_types(tv.generics, 0),
        decreases n - k,
    {
        proof {
            assert(decreases_to!(*annotation => annotation.generics));
            assert(decreases_to!(annotation.generics => annotation.generics@));
            assert(decreases_to!(annotation.generics@ => annotation.generics@[k as int]));
        }
        let t = format_type_annotation(&annotation.generics[k]);
        let ghost before = out@;
        push_str(&mut out, t.as_str());
        if k + 1 < n {
            push_str(&mut out, ", ");
            assert(out@ + fmt_types(tv.generics, k + 1) =~= before + fmt_types(tv.generics, k as int));
        } else {
            assert(out@ + fmt_types(tv.generics, k + 1) =~= before + fmt_types(tv.generics, k as int));
        }
        k = k + 1;
    }
    assert(out@ + fmt_types(tv.generics, n as int) =~= out@);
    push_str(&mut out, ">");
    out
}

/// A string with each `"` written as `\"`.
fn escape_quotes_of(s: &str) -> (r: String)
    ensures
        r@ == escape_quotes(s@),
{
    let cs = chars_of(s);
    let mut out = String::new();
    let mut k: usize = 0;
    while k < cs.len()
        invariant
            cs@ == s@,
            k <= cs@.len(),
            out@ == escape_quotes(cs@.take(k as int)),
        decreases cs@.len() - k,
    {
        let ghost before = out@;
        if cs[k] == '"' {
            push_char(&mut out, '\\');
            push_char(&mut out, '"');
        } else {
            push_char(&mut out, cs[k]);
        }
        assert(cs@.take(k + 1).drop_last() =~= cs@.take(k as int));
        assert(out@ =~= escape_quotes(cs@.take(k + 1)));
        k = k + 1;
    }
    assert(cs@.take(cs@.len() as int) =~= cs@);
    out
}

/// The text of an expression; float literals are written by `floats`.
pub fn format_expr<F: FloatOps>(expr: &Expr, floats: &F) -> (r: String)
    ensures
        shows_expr(r@, expr@),
{
    let (t, fs) = format_expr_parts(expr, floats);
    assert(fs@.len() == expr_floats(expr@) && t@ == fmt_expr(expr@, fs@));
    t
}

/// The text of an expression, and the texts its float literals were written with.
fn format_expr_parts<F: FloatOps>(expr: &Expr, floats: &F) -> (r: (String, Ghost<Seq<Seq<char>>>))
    ensures
        r.1@.len() == expr_floats(expr@),
        r.0@ == fmt_expr(expr@, r.1@),
    decreases expr, 1nat,
{
    match expr {
        Expr::Literal(lit) => {
            proof {
                assert(decreases_to!(*expr => *lit));
            }
            format_literal(lit, floats)
        },
        Expr::Variable(name) => (name.clone(), Ghost(Seq::empty())),
        Expr::Index { target, index } => {
            let (t, ft) = format_expr_parts(target, floats);
            let (i, fi) = format_expr_parts(index, floats);
            let mut out = t;
            push_str(&mut out, "[");
            push_str(&mut out, i.as_str());
            push_str(&mut out, "]");
            let ghost fs = ft@ + fi@;
            proof {
                assert(fs.take(ft@.len() as int) =~= ft@);
                assert(fs.skip(ft@.len() as int) =~= fi@);
                assert(out@ =~= fmt_expr(expr@, fs));
            }
            (out, Ghost(fs))
        },
        Expr::Unary { op, expr: inner } => {
            let mut out = match op {
                UnaryOp::Negate => owned("-"),
                UnaryOp::Not => owned("!"),
            };
            let (wrapped, fw) = wrap_unary(inner, floats);
            push_str(&mut out, wrapped.as_str());
            proof {
                assert(out@ =~= fmt_expr(expr@, fw@));
            }
            (out, fw)
        },
        Expr::Binary { left, op, right } => {
            let (l, fl) = format_expr_parts(left, floats);
            let (r, fr) = format_expr_parts(right, floats);
            let mut out = owned("(");
            push_str(&mut out, l.as_str());
            push_str(&mut out, " ");
            push_str(&mut out, format_binary_op(*op));
            push_str(&mut out, " ");
            push_str(&mut out, r.as_str());
            push_str(&mut out, ")");
            let ghost fs = fl@ + fr@;
            proof {
                assert(fs.take(fl@.len() as int) =~= fl@);
                assert(fs.skip(fl@.len() as int) =~= fr@);
                assert(out@ =~= fmt_expr(expr@, fs));
            }
            (out, Ghost(fs))
        },
    }
}

/// The text of the operand of a unary operator: parenthesised unless a literal or a variable.
fn wrap_unary<F: FloatOps>(expr: &Expr, floats: &F) -> (r: (String, Ghost<Seq<Seq<char>>>))
    ensures
        r.1@.len() == expr_floats(expr@),
        r.0@ == (match expr@ {
            ExprV::Literal(_) | ExprV::Variable(_) => fmt_expr(expr@, r.1@),
            _ => "("@ + fmt_expr(expr@, r.1@) + ")"@,
        }),
    decreases expr, 2nat,
{
    match expr {
        Expr::Literal(_) | Expr::Variable(_) => format_expr_parts(expr, floats),
        _ => {
            let (inner, fs) = format_expr_parts(expr, floats);
            let mut out = owned("(");
            push_str(&mut out, inner.as_str());
            push_str(&mut out, ")");
            (out, fs)
        },
    }
}

/// The text of a literal.
fn format_literal<F: FloatOps>(value: &Literal, floats: &F) -> (r: (String, Ghost<Seq<Seq<char>>>))
    ensures
        r.1@.len() == expr_floats(Expr::Literal(*value)@),
        r.0@ == fmt_expr(Expr::Literal(*value)@, r.1@),
    decreases value, 0nat,
{
    match value {
        Literal::Integer(v) => {
            let mut out = String::new();
            push_i64(&mut out, *v);
            assert(out@ =~= int_decimal(*v as int));
            (out, Ghost(Seq::empty()))
        },
        Literal::Float(text) => {
            let t = floats.float_text(floats.parse_literal(text.as_str()));
            let ghost fs = seq![t@];
            (t, Ghost(fs))
        },
        Literal::Bool(b) => if *b {
            (owned("true"), Ghost(Seq::empty()))
        } else {
            (owned("false"), Ghost(Seq::empty()))
        },
        Literal::Str(v) => {
            let mut out = owned("\"");
            let escaped = escape_quotes_of(v.as_str());
            push_str(&mut out, escaped.as_str());
            push_str(&mut out, "\"");
            (out, Ghost(Seq::empty()))
        },
        Literal::Array(elements) => {
            proof {
                assert(decreases_to!(*value => *elements));
            }
            format_array(elements, floats)
        },
    }
}

/// The text of an array literal: its elements joined by `, ` between brackets.
fn format_array<F: FloatOps>(elements: &Vec<ArrayElement>, floats: &F) -> (r: (String, Ghost<Seq<Seq<char>>>))
    ensures
        r.1@.len() == elements_floats(elements_view(elements@)),
        r.0@ == "["@ + fmt_elements(elements_view(elements@), r.1@) + "]"@,
    decreases elements, 0nat,
{
    let ghost ev = elements_view(elements@);
    proof { lemma_elements_view(elements@); }
    let n = elements.len();
    let mut out = owned("[");
    let ghost mut fs_acc: Seq<Seq<char>> = Seq::empty();
    let mut k: usize = 0;
    assert(ev.take(0) =~= Seq::<ElementV>::empty());
    while k < n
        invariant
            n == elements@.len(),
            ev == elements_view(elements@),
            ev.len() == n,
            forall|j: int| 0 <= j < n ==> #[trigger] ev[j] == element_view(elements@[j]),
            k <= n,
            fs_acc.len() == elements_floats(ev.take(k as int)),
            out@ == "["@ + fmt_elements(ev.take(k as int), fs_acc),
        decreases n - k,
    {
        proof {
            assert(decreases_to!(*elements => elements@));
            assert(decreases_to!(elements@ => elements@[k as int]));
        }
        if k > 0 {
            push_str(&mut out, ", ");
        }
        let ghost before = out@;
        let ghost mut fe: Seq<Seq<char>> = Seq::empty();
        match &elements[k] {
            ArrayElement::Value(x) => {
                proof {
                    assert(decreases_to!(elements@[k as int] => *x));
                }
                let (t, ft) = format_expr_parts(x, floats);
                push_str(&mut out, t.as_str());
                proof {
                    fe = ft@;
                    assert(ev[k as int] == ElementV::Value(x@));
                    assert(fe.len() == element_floats(ev[k as int]));
                    assert(out@ == before + fmt_element(ev[k as int], fe));
                }
            },
            ArrayElement::KeyValue { key, value } => {
                proof {
                    assert(decreases_to!(elements@[k as int] => *key));
                    assert(decreases_to!(elements@[k as int] => *value));
                }
                let (kt, fk) = format_expr_parts(key, floats);
                let (vt, fv) = format_expr_parts(value, floats);
                push_str(&mut out, kt.as_str());
                push_str(&mut out, " => ");
                push_str(&mut out, vt.as_str());
                proof {
                    fe = fk@ + fv@;
                    assert(fe.take(fk@.len() as int) =~= fk@);
                    assert(fe.skip(fk@.len() as int) =~= fv@);
                    assert(ev[k as int] == (ElementV::KeyValue { key: key@, value: value@ }));
                    assert(fe.len() == element_floats(ev[k as int]));
                    assert(out@ =~= before + fmt_element(ev[k as int], fe));
                }
            },
        }
        proof {
            let t = ev.take(k + 1);
            let nfs = fs_acc + fe;
            assert(t.drop_last() =~= ev.take(k as int));
            assert(t.last() == ev[k as int]);
            assert(nfs.take(fs_acc.len() as int) =~= fs_acc);
            assert(nfs.skip(fs_acc.len() as int) =~= fe);
            if k == 0 {
                assert(fmt_elements(ev.take(k as int), fs_acc) =~= Seq::<char>::empty());
            }
            assert(out@ =~= "["@ + fmt_elements(t, nfs));
            fs_acc = nfs;
        }
        k = k + 1;
    }
    assert(ev.take(n as int) =~= ev);
    push_str(&mut out, "]");
    (out, Ghost(fs_acc))
}

/// The text of an assignment target.
fn format_target<F: FloatOps>(target: &AssignmentTarget, floats: &F) -> (r: (String, Ghost<Seq<Seq<char>>>))
    ensures
        r.1@.len() == target_floats(target@),
        r.0@ == fmt_target(target@, r.1@),
{
    match target {
        AssignmentTarget::Name(name) => (name.clone(), Ghost(Seq::empty())),
        AssignmentTarget::Indexed { name, indices } => {
            let ghost iv = index_targets_view(indices@);
            let n = indices.len();
            let mut out = name.clone();
            let ghost mut fs_acc: Seq<Seq<char>> = Seq::empty();
            let mut k: usize = 0;
            assert(iv.take(0) =~= Seq::<IndexTargetV>::empty());
            while k < n
                invariant
                    n == indices@.len(),
                    iv == index_targets_view(indices@),
                    iv.len() == n,
                    k <= n,
                    fs_acc.len() == indices_floats(iv.take(k as int)),
                    out@ == name@ + fmt_indices(iv.take(k as int), fs_acc),
                decreases n - k,
            {
                let ghost before = out@;
                let ghost mut fe: Seq<Seq<char>> = Seq::empty();
                match &indices[k] {
                    IndexTarget::Append => push_str(&mut out, "[]"),
                    IndexTarget::Index(x) => {
                        let (t, ft) = format_expr_parts(x, floats);
                        push_str(&mut out, "[");
                        push_str(&mut out, t.as_str());
                        push_str(&mut out, "]");
                        proof { fe = ft@; }
                    },
                }
                proof {
                    let t = iv.take(k + 1);
                    let nfs = fs_acc + fe;
                    assert(t.drop_last() =~= iv.take(k as int));
                    assert(t.last() == iv[k as int]);
                    assert(iv[k as int] == indices@[k as int]@);
                    assert(nfs.take(fs_acc.len() as int) =~= fs_acc);
                    assert(nfs.skip(fs_acc.len() as int) =~= fe);
                    assert(out@ =~= name@ + fmt_indices(t, nfs));
                    fs_acc = nfs;
                }
                k = k + 1;
            }
            assert(iv.take(n as int) =~= iv);
            (out, Ghost(fs_acc))
        },
    }
}

/// The text of a statement; float literals are written by `floats`.
pub fn format_statement<F: FloatOps>(statement: &Statement, floats: &F) -> (r: String)
    requires
        stmt_wf(statement@),
    ensures
        shows_stmt(r@, statement@),
{
    let (t, fs) = format_statement_parts(statement, floats);
    assert(fs@.len() == stmt_floats(statement@) && t@ == fmt_stmt(statement@, fs@));
    t
}

/// The text of a statement, and the texts its float literals were written with.
pub(crate) fn format_statement_parts<F: FloatOps>(statement: &Statement, floats: &F) -> (r: (String, Ghost<Seq<Seq<char>>>))
    requires
        stmt_wf(statement@),
    ensures
        r.1@.len() == stmt_floats(statement@),
        r.0@ == fmt_stmt(statement@, r.1@),
    decreases statement, 0nat,
{
    match statement {
        Statement::Let(decl) => format_let_declaration(decl, floats),
        Statement::Assignment(assign) => format_assignment(assign, floats),
        Statement::Echo(expr) => {
            let mut out = owned("echo ");
            let (t, fs) = format_expr_parts(expr, floats);
            push_str(&mut out, t.as_str());
            (out, fs)
        },
        Statement::If(if_stmt) => format_if_statement(if_stmt, floats),
        Statement::While(while_stmt) => format_while_statement(while_stmt, floats),
        Statement::Break => (owned("break"), Ghost(Seq::empty())),
        Statement::Continue => (owned("continue"), Ghost(Seq::empty())),
    }
}

/// The text of a declaration.
fn format_let_declaration<F: FloatOps>(decl: &VarDeclaration, floats: &F) -> (r: (String, Ghost<Seq<Seq<char>>>))
    ensures
        r.1@.len() == stmt_floats(Statement::Let(*decl)@),
        r.0@ == fmt_stmt(Statement::Let(*decl)@, r.1@),
{
    let mut out = owned("let ");
    if !decl.mutable {
        push_str(&mut out, "fix ");
    }
    push_str(&mut out, decl.name.as_str());
    match &decl.ty {
        Some(ty) => {
            push_str(&mut out, ": ");
            let t = format_type_annotation(ty);
            push_str(&mut out, t.as_str());
        },
        None => {},
    }
    let ghost head = out@;
    assert(head =~= let_head(decl.name@, type_opt_view(decl.ty), decl.mutable));
    match &decl.value {
        Some(value) => {
            push_str(&mut out, " = ");
            let (t, fs) = format_expr_parts(value, floats);
            push_str(&mut out, t.as_str());
            assert(out@ =~= fmt_stmt(Statement::Let(*decl)@, fs@));
            (out, fs)
        },
        None => {
            assert(out@ =~= fmt_stmt(Statement::Let(*decl)@, Seq::empty()));
            (out, Ghost(Seq::empty()))
        },
    }
}

/// The text of an assignment.
fn format_assignment<F: FloatOps>(assign: &Assignment, floats: &F) -> (r: (String, Ghost<Seq<Seq<char>>>))
    requires
        stmt_wf(Statement::Assignment(*assign)@),
    ensures
        r.1@.len() == stmt_floats(Statement::Assignment(*assign)@),
        r.0@ == fmt_stmt(Statement::Assignment(*assign)@, r.1@),
{
    let (mut out, ft) = format_target(&assign.target, floats);
    let ghost head = out@;
    let ghost mut fk: Seq<Seq<char>> = Seq::empty();
    match &assign.kind {
        AssignmentKind::Simple(expr) => {
            push_str(&mut out, " = ");
            let (t, fs) = format_expr_parts(expr, floats);
            push_str(&mut out, t.as_str());
            proof { fk = fs@; }
        },
        AssignmentKind::Compound { op, expr } => {
            push_str(&mut out, " ");
            push_str(&mut out, format_compound_op(*op));
            push_str(&mut out, "= ");
            let (t, fs) = format_expr_parts(expr, floats);
            push_str(&mut out, t.as_str());
            proof { fk = fs@; }
        },
        AssignmentKind::Increment(IncrementOp::Increment) => push_str(&mut out, "++"),
        AssignmentKind::Increment(IncrementOp::Decrement) => push_str(&mut out, "--"),
    }
    let ghost fs = ft@ + fk;
    proof {
        assert(fs.take(ft@.len() as int) =~= ft@);
        assert(fs.skip(ft@.len() as int) =~= fk);
        assert(out@ =~= fmt_stmt(Statement::Assignment(*assign)@, fs));
    }
    (out, Ghost(fs))
}

/// The text of an `if` statement.
fn format_if_statement<F: FloatOps>(if_stmt: &IfStatement, floats: &F) -> (r: (String, Ghost<Seq<Seq<char>>>))
    requires
        if_wf(if_view(*if_stmt)),
    ensures
        r.1@.len() == if_floats(if_view(*if_stmt)),
        r.0@ == fmt_if(if_view(*if_stmt), r.1@),
    decreases if_stmt, 0nat,
{
    let mut out = owned("if (");
    let (c, fc) = format_expr_parts(&if_stmt.condition, floats);
    push_str(&mut out, c.as_str());
    push_str(&mut out, ") ");
    let (b, fb) = format_block(&if_stmt.then_branch, floats);
    push_str(&mut out, b.as_str());
    let ghost head = out@;
    let ghost mut fe: Seq<Seq<char>> = Seq::empty();
    match &if_stmt.else_branch {
        Some(else_branch) => {
            match &**else_branch {
                ElseBranch::If(nested) => {
                    push_str(&mut out, " else ");
                    proof {
                        assert(decreases_to!(*if_stmt => if_stmt.else_branch));
                    }
                    let (t, ft) = format_if_statement(nested, floats);
                    push_str(&mut out, t.as_str());
                    proof { fe = ft@; }
                },
                ElseBranch::Block(block) => {
                    push_str(&mut out, " else ");
                    let (t, ft) = format_block(block, floats);
                    push_str(&mut out, t.as_str());
                    proof { fe = ft@; }
                },
            }
        },
        None => {},
    }
    let ghost fs = fc@ + fb@ + fe;
    proof {
        let c1 = fc@.len() as int;
        let c2 = c1 + fb@.len();
        assert(fs.take(c1) =~= fc@);
        assert(fs.subrange(c1, c2) =~= fb@);
        assert(fs.skip(c2) =~= fe);
        assert(out@ =~= fmt_if(if_view(*if_stmt), fs));
    }
    (out, Ghost(fs))
}

/// The text of a `while` statement.
fn format_while_statement<F: FloatOps>(while_stmt: &WhileStatement, floats: &F) -> (r: (String, Ghost<Seq<Seq<char>>>))
    requires
        stmts_wf(statements_view(while_stmt.body@), 0),
    ensures
        r.1@.len() == stmt_floats(Statement::While(*while_stmt)@),
        r.0@ == fmt_stmt(Statement::While(*while_stmt)@, r.1@),
    decreases while_stmt, 0nat,
{
    let mut out = owned("while (");
    let (c, fc) = format_expr_parts(&while_stmt.condition, floats);
    push_str(&mut out, c.as_str());
    push_str(&mut out, ") ");
    let (b, fb) = format_block(&while_stmt.body, floats);
    push_str(&mut out, b.as_str());
    let ghost fs = fc@ + fb@;
    proof {
        assert(fs.take(fc@.len() as int) =~= fc@);
        assert(fs.skip(fc@.len() as int) =~= fb@);
        assert(out@ =~= fmt_stmt(Statement::While(*while_stmt)@, fs));
    }
    (out, Ghost(fs))
}

/// The text of a block.
fn format_block<F: FloatOps>(statements: &Vec<Statement>, floats: &F) -> (r: (String, Ghost<Seq<Seq<char>>>))
    requires
        stmts_wf(statements_view(statements@), 0),
    ensures
        r.1@.len() == block_floats(statements_view(statements@)),
        r.0@ == fmt_block(statements_view(statements@), r.1@),
    decreases statements, 0nat,
{
    let ghost sv = statements_view(statements@);
    proof {
        lemma_statements_view(statements@);
        lemma_stmts_wf(sv, 0);
    }
    let n = statements.len();
    if n == 0 {
        return (owned("{}"), Ghost(Seq::empty()));
    }
    let mut out = owned("{\n");
    let ghost mut fs_acc: Seq<Seq<char>> = Seq::empty();
    let mut k: usize = 0;
    assert(sv.take(0) =~= Seq::<StmtV>::empty());
    while k < n
        invariant
            n == statements@.len(),
            n > 0,
            sv == statements_view(statements@),
            sv.len() == n,
            forall|j: int| 0 <= j < n ==> #[trigger] sv[j] == statements@[j]@,
            forall|j: int| 0 <= j < n ==> #[trigger] stmt_wf(sv[j]),
            k <= n,
            fs_acc.len() == block_floats(sv.take(k as int)),
            out@ == "{\n"@ + fmt_lines(sv.take(k as int), fs_acc),
        decreases n - k,
    {
        proof {
            assert(decreases_to!(*statements => statements@));
            assert(decreases_to!(statements@ => statements@[k as int]));
            assert(stmt_wf(sv[k as int]));
        }
        let ghost before = out@;
        push_str(&mut out, "  ");
        let (t, ft) = format_statement_parts(&statements[k], floats);
        push_str(&mut out, t.as_str());
        push_str(&mut out, "\n");
        proof {
            let tk = sv.take(k + 1);
            let nfs = fs_acc + ft@;
            assert(tk.drop_last() =~= sv.take(k as int));
            assert(tk.last() == sv[k as int]);
            assert(nfs.take(fs_acc.len() as int) =~= fs_acc);
            assert(nfs.skip(fs_acc.len() as int) =~= ft@);
            assert(out@ =~= "{\n"@ + fmt_lines(tk, nfs));
            fs_acc = nfs;
        }
        k = k + 1;
    }
    assert(sv.take(n as int) =~= sv);
    push_str(&mut out, "}");
    (out, Ghost(fs_acc))
}

} // verus!
