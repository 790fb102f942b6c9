//! What every lowered program satisfies: the variables it uses are declared, each expression has
//! the type its parts give it, conditions are boolean and `break` and `continue` stand only
//! inside loops. A backend can rely on this without checking.
use vstd::prelude::*;
use crate::ast::{
    Assignment, AssignmentKind, ElseBranch, Expr, IfStatement, Statement, StmtV,
    VarDeclaration, if_view, if_wf, lemma_statements_view, lemma_stmts_wf, statements_view,
    stmt_wf, stmts_wf,
};
use crate::diagnostics::LangErrorV;
use crate::mir::{
    LowerState, MirExpr, MirExprKind, MirStmtV, MirType, MirUnaryOp, VarV, binary_type,
    lower_assignment_spec, lower_block_spec, lower_expr_spec, lower_if_spec, lower_let_spec,
    lower_program, lower_stmt_spec, var_index_from,
};

verus! {

/// Whether `more` starts with the variables of `vars`.
pub open spec fn extends(vars: Seq<VarV>, more: Seq<VarV>) -> bool {
    &&& vars.len() <= more.len()
    &&& forall|k: int| 0 <= k < vars.len() ==> #[trigger] more[k] == vars[k]
}

/// Whether an expression is well typed over the declared variables `vars`: a literal has its
/// type, a variable is declared and has its declared type, and an operation has the type that
/// its operands' types give it.
pub open spec fn expr_typed(vars: Seq<VarV>, e: MirExpr) -> bool
    decreases e,
{
    match e.kind {
        MirExprKind::Int(_) => e.ty == MirType::Int,
        MirExprKind::Bool(_) => e.ty == MirType::Bool,
        MirExprKind::Var(id) => id.0 < vars.len() && e.ty == vars[id.0 as int].ty,
        MirExprKind::Unary { op, expr } => expr_typed(vars, *expr) && match op {
            MirUnaryOp::Negate => expr.ty == MirType::Int && e.ty == MirType::Int,
            MirUnaryOp::Not => expr.ty == MirType::Bool && e.ty == MirType::Bool,
        },
        MirExprKind::Binary { op, left, right } => expr_typed(vars, *left) && expr_typed(vars, *right)
            && binary_type(op, left.ty, right.ty) == Ok::<MirType, LangErrorV>(e.ty),
    }
}

/// Whether a statement is well formed over `vars`, inside a loop when `in_loop` holds: the
/// variables it declares and assigns are in `vars` and receive values of their type, its
/// expressions are well typed, its conditions boolean, and `break` and `continue` stand only
/// inside a loop.
pub open spec fn stmt_typed(vars: Seq<VarV>, s: MirStmtV, in_loop: bool) -> bool
    decreases s, 0nat,
{
    match s {
        MirStmtV::Let { var, init } => var.0 < vars.len() && match init {
            None => true,
            Some(e) => expr_typed(vars, e) && e.ty == vars[var.0 as int].ty,
        },
        MirStmtV::Assign { var, value } => var.0 < vars.len() && expr_typed(vars, value)
            && value.ty == vars[var.0 as int].ty,
        MirStmtV::Echo(e) => expr_typed(vars, e),
        MirStmtV::If { cond, then_body, else_body } => expr_typed(vars, cond) && cond.ty == MirType::Bool
            && stmts_typed(vars, then_body, 0, in_loop) && stmts_typed(vars, else_body, 0, in_loop),
        MirStmtV::While { cond, body } => expr_typed(vars, cond) && cond.ty == MirType::Bool
            && stmts_typed(vars, body, 0, true),
        MirStmtV::Break => in_loop,
        MirStmtV::Continue => in_loop,
    }
}

/// [`stmt_typed`] for the statements from position `i` on.
pub open spec fn stmts_typed(vars: Seq<VarV>, ss: Seq<MirStmtV>, i: int, in_loop: bool) -> bool
    decreases ss, ss.len() - i,
{
    if i < 0 || i >= ss.len() {
        true
    } else {
        stmt_typed(vars, ss[i], in_loop) && stmts_typed(vars, ss, i + 1, in_loop)
    }
}

/// [`stmts_typed`] from `i` on holds when it holds of each statement from `i` on.
proof fn lemma_stmts_typed(vars: Seq<VarV>, ss: Seq<MirStmtV>, i: int, in_loop: bool)
    requires
        0 <= i,
    ensures
        stmts_typed(vars, ss, i, in_loop) <==> forall|k: int| i <= k < ss.len() ==> #[trigger] stmt_typed(vars, ss[k], in_loop),
    decreases ss.len() - i,
{
    if i < ss.len() {
        lemma_stmts_typed(vars, ss, i + 1, in_loop);
        if stmts_typed(vars, ss, i, in_loop) {
            assert forall|k: int| i <= k < ss.len() implies #[trigger] stmt_typed(vars, ss[k], in_loop) by {
                if k > i {
                    assert(stmts_typed(vars, ss, i + 1, in_loop));
                }
            }
        }
        if forall|k: int| i <= k < ss.len() ==> #[trigger] stmt_typed(vars, ss[k], in_loop) {
            assert(stmt_typed(vars, ss[i], in_loop));
            assert forall|k: int| i + 1 <= k < ss.len() implies #[trigger] stmt_typed(vars, ss[k], in_loop) by {
                assert(i <= k);
            }
        }
    }
}

/// A variable found by name is one of `vars`, at or after where the search began.
proof fn lemma_var_index(vars: Seq<VarV>, name: Seq<char>, i: int)
    requires
        0 <= i,
    ensures
        var_index_from(vars, name, i) == -1 || i <= var_index_from(vars, name, i) < vars.len(),
    decreases vars.len() - i,
{
    if i < vars.len() && vars[i].name != name {
        lemma_var_index(vars, name, i + 1);
    }
}

/// A lowered expression is well typed.
proof fn lemma_lower_expr(vars: Seq<VarV>, e: Expr)
    requires
        vars.len() <= usize::MAX,
    ensures
        lower_expr_spec(vars, e) matches Ok(m) ==> expr_typed(vars, m),
    decreases e,
{
    match e {
        Expr::Variable(name) => {
            lemma_var_index(vars, name@, 0);
        },
        Expr::Unary { op, expr } => {
            lemma_lower_expr(vars, *expr);
        },
        Expr::Binary { left, op, right } => {
            lemma_lower_expr(vars, *left);
            lemma_lower_expr(vars, *right);
        },
        _ => {},
    }
}

/// An expression well typed over some variables stays so over more.
proof fn lemma_expr_extends(vars: Seq<VarV>, more: Seq<VarV>, e: MirExpr)
    requires
        extends(vars, more),
        expr_typed(vars, e),
    ensures
        expr_typed(more, e),
    decreases e,
{
    match e.kind {
        MirExprKind::Unary { op, expr } => {
            lemma_expr_extends(vars, more, *expr);
        },
        MirExprKind::Binary { op, left, right } => {
            lemma_expr_extends(vars, more, *left);
            lemma_expr_extends(vars, more, *right);
        },
        _ => {},
    }
}

/// A statement well formed over some variables stays so over more.
proof fn lemma_stmt_extends(vars: Seq<VarV>, more: Seq<VarV>, s: MirStmtV, in_loop: bool)
    requires
        extends(vars, more),
        stmt_typed(vars, s, in_loop),
    ensures
        stmt_typed(more, s, in_loop),
    decreases s, 0nat,
{
    match s {
        MirStmtV::Let { var, init } => {
            if let Some(e) = init {
                lemma_expr_extends(vars, more, e);
            }
        },
        MirStmtV::Assign { var, value } => {
            lemma_expr_extends(vars, more, value);
        },
        MirStmtV::Echo(e) => {
            lemma_expr_extends(vars, more, e);
        },
        MirStmtV::If { cond, then_body, else_body } => {
            lemma_expr_extends(vars, more, cond);
            lemma_stmts_extends(vars, more, then_body, 0, in_loop);
            lemma_stmts_extends(vars, more, else_body, 0, in_loop);
        },
        MirStmtV::While { cond, body } => {
            lemma_expr_extends(vars, more, cond);
            lemma_stmts_extends(vars, more, body, 0, true);
        },
        _ => {},
    }
}

/// Statements well formed over some variables stay so over more.
proof fn lemma_stmts_extends(vars: Seq<VarV>, more: Seq<VarV>, ss: Seq<MirStmtV>, i: int, in_loop: bool)
    requires
        extends(vars, more),
        stmts_typed(vars, ss, i, in_loop),
    ensures
        stmts_typed(more, ss, i, in_loop),
    decreases ss, ss.len() - i,
{
    if 0 <= i < ss.len() {
        lemma_stmt_extends(vars, more, ss[i], in_loop);
        lemma_stmts_extends(vars, more, ss, i + 1, in_loop);
    }
}

/// Starting with is transitive.
proof fn lemma_extends_trans(a: Seq<VarV>, b: Seq<VarV>, c: Seq<VarV>)
    requires
        extends(a, b),
        extends(b, c),
    ensures
        extends(a, c),
{
    assert forall|k: int| 0 <= k < a.len() implies #[trigger] c[k] == a[k] by {
        assert(c[k] == b[k]);
    }
}

/// Each statement of a well-formed list is well formed.
proof fn lemma_wf_each(ss: Seq<Statement>)
    requires
        stmts_wf(statements_view(ss), 0),
    ensures
        forall|k: int| 0 <= k < ss.len() ==> #[trigger] stmt_wf(ss[k]@),
{
    lemma_stmts_wf(statements_view(ss), 0);
    lemma_statements_view(ss);
    assert forall|k: int| 0 <= k < ss.len() implies #[trigger] stmt_wf(ss[k]@) by {
        assert(statements_view(ss)[k] == ss[k]@);
    }
}

/// A lowered assignment stores a value of the variable's type into a declared variable.
proof fn lemma_lower_assignment(vars: Seq<VarV>, a: Assignment, in_loop: bool)
    requires
        vars.len() <= usize::MAX,
        stmt_wf(StmtV::Assign { target: a.target@, kind: a.kind@ }),
    ensures
        lower_assignment_spec(vars, a) matches Ok(m) ==> stmt_typed(vars, m, in_loop),
{
    if let crate::ast::AssignmentTarget::Name(name) = a.target {
        lemma_var_index(vars, name@, 0);
        if let Ok(m) = lower_assignment_spec(vars, a) {
            let i = var_index_from(vars, name@, 0);
            let var = crate::mir::VarId(i as usize);
            let ty = vars[i].ty;
            let value = crate::mir::lower_assign_value(vars, var, ty, a.kind)->Ok_0;
            assert(m == MirStmtV::Assign { var, value });
            let left = MirExpr { ty, kind: MirExprKind::Var(var) };
            assert(expr_typed(vars, left));
            match a.kind {
                AssignmentKind::Simple(e) => {
                    lemma_lower_expr(vars, e);
                },
                AssignmentKind::Compound { op, expr } => {
                    lemma_lower_expr(vars, expr);
                    let rhs = lower_expr_spec(vars, expr)->Ok_0;
                    assert(expr_typed(vars, rhs));
                    assert(crate::ast::is_compound_op(op));
                    assert(crate::mir::is_arithmetic(crate::mir::mir_op(op)));
                    assert(binary_type(crate::mir::mir_op(op), MirType::Int, MirType::Int) == Ok::<MirType, LangErrorV>(MirType::Int));
                    assert(expr_typed(vars, value));
                },
                AssignmentKind::Increment(op) => {
                    let one = MirExpr {
                        ty: MirType::Int,
                        kind: MirExprKind::Int(if op == crate::ast::IncrementOp::Increment { 1i64 } else { -1i64 }),
                    };
                    assert(expr_typed(vars, one));
                    assert(binary_type(crate::mir::MirBinaryOp::Add, MirType::Int, MirType::Int) == Ok::<MirType, LangErrorV>(MirType::Int));
                    assert(expr_typed(vars, value));
                },
            }
        }
    }
}

/// A lowered declaration adds one variable, and declares it with a value of its type.
proof fn lemma_lower_let(st: LowerState, d: VarDeclaration, in_loop: bool)
    ensures
        lower_let_spec(st, d) matches Ok((next, m)) ==> {
            &&& extends(st.vars, next.vars)
            &&& next.in_loop == st.in_loop
            &&& next.vars.len() <= usize::MAX ==> stmt_typed(next.vars, m, in_loop)
        },
{
    if let Ok((next, m)) = lower_let_spec(st, d) {
        assert(extends(st.vars, next.vars));
        if next.vars.len() <= usize::MAX {
            if let Some(e) = d.value {
                lemma_lower_expr(next.vars, e);
            }
        }
    }
}

/// A lowered statement is well formed over the variables declared once it is lowered.
proof fn lemma_lower_stmt(st: LowerState, s: Statement)
    requires
        stmt_wf(s@),
    ensures
        lower_stmt_spec(st, s) matches Ok((next, m)) ==> {
            &&& extends(st.vars, next.vars)
            &&& next.in_loop == st.in_loop
            &&& next.vars.len() <= usize::MAX ==> stmt_typed(next.vars, m, st.in_loop)
        },
    decreases s, 0nat,
{
    match s {
        Statement::Let(d) => {
            lemma_lower_let(st, d, st.in_loop);
        },
        Statement::Assignment(a) => {
            if st.vars.len() <= usize::MAX {
                lemma_lower_assignment(st.vars, a, st.in_loop);
            }
        },
        Statement::Echo(e) => {
            if st.vars.len() <= usize::MAX {
                lemma_lower_expr(st.vars, e);
            }
        },
        Statement::If(i) => {
            lemma_lower_if(st, i);
        },
        Statement::While(w) => {
            lemma_wf_each(w.body@);
            let inner = LowerState { vars: st.vars, in_loop: true };
            lemma_lower_block(inner, w.body@, 0, Seq::empty());
            if let Ok((next, m)) = lower_stmt_spec(st, s) {
                let after = lower_block_spec(inner, w.body@, 0, Seq::empty())->Ok_0.0;
                assert(next.vars == after.vars);
                if next.vars.len() <= usize::MAX {
                    lemma_lower_expr(st.vars, w.condition);
                    let cond = lower_expr_spec(st.vars, w.condition)->Ok_0;
                    lemma_expr_extends(st.vars, next.vars, cond);
                }
            }
        },
        _ => {},
    }
}

/// Lowered statements from position `i` on, after the well-formed `acc`, are well formed over
/// the variables declared once they are lowered.
proof fn lemma_lower_block(st: LowerState, stmts: Seq<Statement>, i: int, acc: Seq<MirStmtV>)
    requires
        0 <= i,
        forall|k: int| 0 <= k < stmts.len() ==> #[trigger] stmt_wf(stmts[k]@),
        st.vars.len() <= usize::MAX ==> stmts_typed(st.vars, acc, 0, st.in_loop),
    ensures
        lower_block_spec(st, stmts, i, acc) matches Ok((next, out)) ==> {
            &&& extends(st.vars, next.vars)
            &&& next.in_loop == st.in_loop
            &&& next.vars.len() <= usize::MAX ==> stmts_typed(next.vars, out, 0, st.in_loop)
        },
    decreases stmts, stmts.len() - i,
{
    if i < stmts.len() {
        lemma_lower_stmt(st, stmts[i]);
        if let Ok((mid, m)) = lower_stmt_spec(st, stmts[i]) {
            if mid.vars.len() <= usize::MAX {
                lemma_stmts_typed(st.vars, acc, 0, st.in_loop);
                lemma_stmts_typed(mid.vars, acc.push(m), 0, st.in_loop);
                assert forall|k: int| 0 <= k < acc.push(m).len() implies #[trigger] stmt_typed(mid.vars, acc.push(m)[k], st.in_loop) by {
                    if k < acc.len() {
                        assert(acc.push(m)[k] == acc[k]);
                        assert(stmt_typed(st.vars, acc[k], st.in_loop));
                        lemma_stmt_extends(st.vars, mid.vars, acc[k], st.in_loop);
                    }
                }
            }
            lemma_lower_block(mid, stmts, i + 1, acc.push(m));
            if let Ok((next, out)) = lower_block_spec(mid, stmts, i + 1, acc.push(m)) {
                lemma_extends_trans(st.vars, mid.vars, next.vars);
            }
        }
    }
}

/// A lowered `if` statement is well formed over the variables declared once it is lowered.
proof fn lemma_lower_if(st: LowerState, i: IfStatement)
    requires
        if_wf(if_view(i)),
    ensures
        lower_if_spec(st, i) matches Ok((next, m)) ==> {
            &&& extends(st.vars, next.vars)
            &&& next.in_loop == st.in_loop
            &&& next.vars.len() <= usize::MAX ==> stmt_typed(next.vars, m, st.in_loop)
        },
    decreases i, 0nat,
{
    lemma_wf_each(i.then_branch@);
    lemma_lower_block(st, i.then_branch@, 0, Seq::empty());
    if let Ok((next, m)) = lower_if_spec(st, i) {
        let cond = lower_expr_spec(st.vars, i.condition)->Ok_0;
        let (st1, then_body) = lower_block_spec(st, i.then_branch@, 0, Seq::empty())->Ok_0;
        match i.else_branch {
            None => {},
            Some(b) => match *b {
                ElseBranch::If(nested) => {
                    lemma_lower_if(st1, nested);
                    lemma_extends_trans(st.vars, st1.vars, next.vars);
                    if next.vars.len() <= usize::MAX {
                        let inner = lower_if_spec(st1, nested)->Ok_0.1;
                        lemma_stmts_extends(st1.vars, next.vars, then_body, 0, st.in_loop);
                        lemma_stmts_typed(next.vars, seq![inner], 0, st.in_loop);
                    }
                },
                ElseBranch::Block(block) => {
                    lemma_wf_each(block@);
                    lemma_lower_block(st1, block@, 0, Seq::empty());
                    lemma_extends_trans(st.vars, st1.vars, next.vars);
                    if next.vars.len() <= usize::MAX {
                        lemma_stmts_extends(st1.vars, next.vars, then_body, 0, st.in_loop);
                    }
                },
            },
        }
        if next.vars.len() <= usize::MAX {
            lemma_lower_expr(st.vars, i.condition);
            lemma_expr_extends(st.vars, next.vars, cond);
        }
    }
}

/// Whether no two variables share a name.
pub open spec fn names_distinct(vars: Seq<VarV>) -> bool {
    forall|i: int, j: int| 0 <= i < j < vars.len() ==> vars[i].name != vars[j].name
}

/// A name that the search from `i` does not find is the name of no variable from `i` on.
proof fn lemma_var_absent(vars: Seq<VarV>, name: Seq<char>, i: int)
    requires
        0 <= i,
        var_index_from(vars, name, i) == -1,
    ensures
        forall|k: int| i <= k < vars.len() ==> #[trigger] vars[k].name != name,
    decreases vars.len() - i,
{
    if i < vars.len() {
        lemma_var_absent(vars, name, i + 1);
    }
}

/// Lowering a statement declares only names not declared before.
proof fn lemma_distinct_stmt(st: LowerState, s: Statement)
    requires
        names_distinct(st.vars),
    ensures
        lower_stmt_spec(st, s) matches Ok((next, m)) ==> names_distinct(next.vars),
    decreases s, 0nat,
{
    match s {
        Statement::Let(d) => {
            if var_index_from(st.vars, d.name@, 0) < 0 {
                lemma_var_index(st.vars, d.name@, 0);
                lemma_var_absent(st.vars, d.name@, 0);
            }
        },
        Statement::If(i) => {
            lemma_distinct_if(st, i);
        },
        Statement::While(w) => {
            lemma_distinct_block(LowerState { vars: st.vars, in_loop: true }, w.body@, 0, Seq::empty());
        },
        _ => {},
    }
}

/// Lowering statements declares only names not declared before.
proof fn lemma_distinct_block(st: LowerState, stmts: Seq<Statement>, i: int, acc: Seq<MirStmtV>)
    requires
        0 <= i,
        names_distinct(st.vars),
    ensures
        lower_block_spec(st, stmts, i, acc) matches Ok((next, out)) ==> names_distinct(next.vars) && out.len() == acc.len() + (if i < stmts.len() { stmts.len() - i } else { 0 }),
    decreases stmts, stmts.len() - i,
{
    if i < stmts.len() {
        lemma_distinct_stmt(st, stmts[i]);
        if let Ok((mid, m)) = lower_stmt_spec(st, stmts[i]) {
            lemma_distinct_block(mid, stmts, i + 1, acc.push(m));
        }
    }
}

/// Lowering an `if` statement declares only names not declared before.
proof fn lemma_distinct_if(st: LowerState, i: IfStatement)
    requires
        names_distinct(st.vars),
    ensures
        lower_if_spec(st, i) matches Ok((next, m)) ==> names_distinct(next.vars),
    decreases i, 0nat,
{
    lemma_distinct_block(st, i.then_branch@, 0, Seq::empty());
    if let Ok((st1, then_body)) = lower_block_spec(st, i.then_branch@, 0, Seq::empty()) {
        match i.else_branch {
            None => {},
            Some(b) => match *b {
                ElseBranch::If(nested) => {
                    lemma_distinct_if(st1, nested);
                },
                ElseBranch::Block(block) => {
                    lemma_distinct_block(st1, block@, 0, Seq::empty());
                },
            },
        }
    }
}

/// A program that lowers is well formed: it has one lowered statement per statement, its
/// variables have distinct names, every variable it declares, reads or assigns is one of its
/// variables and receives values of its declared type, every expression has the type that its
/// parts give it, conditions are boolean, and `break` and `continue` stand only inside loops.
/// (Stated for programs whose compound assignments use `+`, `-`, `*`, `/` or `%`, as the
/// parser's do, and whose variables a list can index.)
pub proof fn law_lowered_program_is_well_formed(stmts: Seq<Statement>)
    requires
        stmts_wf(statements_view(stmts), 0),
        lower_program(stmts) matches Ok((vars, body)) && vars.len() <= usize::MAX,
    ensures
        lower_program(stmts) matches Ok((vars, body)) && stmts_typed(vars, body, 0, false)
            && body.len() == stmts.len() && names_distinct(vars),
{
    lemma_wf_each(stmts);
    lemma_lower_block(LowerState { vars: Seq::empty(), in_loop: false }, stmts, 0, Seq::empty());
    lemma_distinct_block(LowerState { vars: Seq::empty(), in_loop: false }, stmts, 0, Seq::empty());
}

} // verus!
