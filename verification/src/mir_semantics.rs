//! What lowered expressions mean: an evaluator for the intermediate form over mathematical
//! integers and booleans, and the law that lowering keeps the value the interpreter gives.
use vstd::prelude::*;
use crate::ast::{AssignmentKind, BinaryOp, Expr};
use crate::mir::{
    MirBinaryOp, MirExpr, MirExprKind, MirUnaryOp, VarId, VarV, lower_assign_value, lower_expr_spec, mir_op,
    var_index_from,
};
use crate::semantics::{Env, assign_name, binary, current_value, eval, step_value, trunc_div, trunc_rem};
use crate::diagnostics::LangErrorV;
use crate::value::ValueV;

verus! {

/// A value of the intermediate form: an integer or a boolean.
pub enum MirValue {
    Int(int),
    Bool(bool),
}

/// What an operation of the intermediate form other than `&&` and `||` gives on two values:
/// arithmetic on integers (division and remainder truncate toward zero; by zero they give
/// nothing), comparisons, and equality of two integers or two booleans.
pub open spec fn mir_binary(op: MirBinaryOp, a: MirValue, b: MirValue) -> Option<MirValue> {
    match a {
        MirValue::Int(x) => match b {
            MirValue::Int(y) => match op {
                MirBinaryOp::Add => Some(MirValue::Int(x + y)),
                MirBinaryOp::Subtract => Some(MirValue::Int(x - y)),
                MirBinaryOp::Multiply => Some(MirValue::Int(x * y)),
                MirBinaryOp::Divide => if y == 0 {
                    None
                } else {
                    Some(MirValue::Int(trunc_div(x, y)))
                },
                MirBinaryOp::Modulo => if y == 0 {
                    None
                } else {
                    Some(MirValue::Int(trunc_rem(x, y)))
                },
                MirBinaryOp::Equal => Some(MirValue::Bool(x == y)),
                MirBinaryOp::NotEqual => Some(MirValue::Bool(x != y)),
                MirBinaryOp::Less => Some(MirValue::Bool(x < y)),
                MirBinaryOp::LessEqual => Some(MirValue::Bool(x <= y)),
                MirBinaryOp::Greater => Some(MirValue::Bool(x > y)),
                MirBinaryOp::GreaterEqual => Some(MirValue::Bool(x >= y)),
                _ => None,
            },
            MirValue::Bool(_) => None,
        },
        MirValue::Bool(x) => match b {
            MirValue::Bool(y) => match op {
                MirBinaryOp::Equal => Some(MirValue::Bool(x == y)),
                MirBinaryOp::NotEqual => Some(MirValue::Bool(x != y)),
                _ => None,
            },
            MirValue::Int(_) => None,
        },
    }
}

/// The value of an expression of the intermediate form when variable `i` holds `state[i]`;
/// `&&` and `||` do not look at their right operand when the left one decides.
pub open spec fn mir_eval(state: Seq<MirValue>, e: MirExpr) -> Option<MirValue>
    decreases e,
{
    match e.kind {
        MirExprKind::Int(i) => Some(MirValue::Int(i as int)),
        MirExprKind::Bool(b) => Some(MirValue::Bool(b)),
        MirExprKind::Var(id) => if id.0 < state.len() {
            Some(state[id.0 as int])
        } else {
            None
        },
        MirExprKind::Unary { op, expr } => match mir_eval(state, *expr) {
            Some(MirValue::Int(x)) => if op == MirUnaryOp::Negate {
                Some(MirValue::Int(-x))
            } else {
                None
            },
            Some(MirValue::Bool(b)) => if op == MirUnaryOp::Not {
                Some(MirValue::Bool(!b))
            } else {
                None
            },
            None => None,
        },
        MirExprKind::Binary { op, left, right } => if op == MirBinaryOp::And || op == MirBinaryOp::Or {
            let decides = op == MirBinaryOp::Or;
            match mir_eval(state, *left) {
                Some(MirValue::Bool(b)) => if b == decides {
                    Some(MirValue::Bool(b))
                } else {
                    match mir_eval(state, *right) {
                        Some(MirValue::Bool(c)) => Some(MirValue::Bool(c)),
                        _ => None,
                    }
                },
                _ => None,
            }
        } else {
            match mir_eval(state, *left) {
                Some(a) => match mir_eval(state, *right) {
                    Some(b) => mir_binary(op, a, b),
                    None => None,
                },
                None => None,
            }
        },
    }
}

/// The value of the intermediate form that an interpreter value stands for, if any.
pub open spec fn mir_value_of(v: ValueV) -> Option<MirValue> {
    match v {
        ValueV::Integer(i) => Some(MirValue::Int(i as int)),
        ValueV::Bool(b) => Some(MirValue::Bool(b)),
        _ => None,
    }
}

/// Whether the interpreter's scope and a state of the intermediate form agree on the declared
/// variables `vars`: each variable that has a value in the scope holds the same integer or
/// boolean in the state.
pub open spec fn agrees(env: Env, vars: Seq<VarV>, state: Seq<MirValue>) -> bool {
    &&& vars.len() <= usize::MAX
    &&& state.len() == vars.len()
    &&& forall|i: int| 0 <= i < vars.len() ==> match #[trigger] current_value(env, vars[i].name) {
        Ok(v) => mir_value_of(v) == Some(state[i]),
        Err(_) => true,
    }
}

/// A variable that the search from `i` finds is declared there under that name.
proof fn lemma_var_found(vars: Seq<VarV>, name: Seq<char>, i: int)
    requires
        0 <= i,
    ensures
        var_index_from(vars, name, i) >= 0 ==> i <= var_index_from(vars, name, i) < vars.len()
            && vars[var_index_from(vars, name, i)].name == name,
    decreases vars.len() - i,
{
    if i < vars.len() && vars[i].name != name {
        lemma_var_found(vars, name, i + 1);
    }
}

/// A binary operation other than `&&` and `||` that the interpreter carries out on two integers
/// or booleans gives what the lowered operation gives.
proof fn lemma_binary_agrees(op: BinaryOp, lv: ValueV, rv: ValueV)
    requires
        op != BinaryOp::And,
        op != BinaryOp::Or,
        mir_value_of(lv) is Some,
        mir_value_of(rv) is Some,
    ensures
        binary(op, lv, rv) matches Some(Ok(v)) ==> mir_value_of(v) is Some
            && mir_binary(mir_op(op), mir_value_of(lv)->0, mir_value_of(rv)->0) == mir_value_of(v),
{
    if op == BinaryOp::Modulo {
        if let (ValueV::Integer(a), ValueV::Integer(b)) = (lv, rv) {
            if b != 0 {
                let r = (if a < 0 { -(a as int) } else { a as int }) % (if b < 0 { -(b as int) } else { b as int });
                assert(0 <= r < (if b < 0 { -(b as int) } else { b as int }));
            }
        }
    }
}

/// Lowering keeps the meaning of an expression: wherever the interpreter gives an expression a
/// value in a scope that agrees with a state of the intermediate form, that value is an integer
/// or a boolean, and the lowered expression evaluates to it in that state. So `n - 1` lowers to a
/// subtraction, `a <= b` to the same comparison, and so on for every operator.
pub proof fn law_lowering_keeps_values(env: Env, vars: Seq<VarV>, state: Seq<MirValue>, e: Expr)
    requires
        agrees(env, vars, state),
    ensures
        lower_expr_spec(vars, e) matches Ok(m) ==> (eval(env, e@) matches Some(Ok(v)) ==> mir_value_of(v) is Some
            && mir_eval(state, m) == mir_value_of(v)),
    decreases e,
{
    match e {
        Expr::Variable(name) => {
            lemma_var_found(vars, name@, 0);
            let i = var_index_from(vars, name@, 0);
            if i >= 0 {
                assert(((i as usize) as int) == i);
                assert(current_value(env, vars[i].name) == current_value(env, name@));
            }
        },
        Expr::Unary { op, expr } => {
            law_lowering_keeps_values(env, vars, state, *expr);
        },
        Expr::Binary { left, op, right } => {
            law_lowering_keeps_values(env, vars, state, *left);
            law_lowering_keeps_values(env, vars, state, *right);
            if op != BinaryOp::And && op != BinaryOp::Or {
                if let Some(Ok(lv)) = eval(env, (*left)@) {
                    if let Some(Ok(rv)) = eval(env, (*right)@) {
                        if mir_value_of(lv) is Some && mir_value_of(rv) is Some {
                            lemma_binary_agrees(op, lv, rv);
                        }
                    }
                }
            }
        },
        _ => {},
    }
}

/// Lowering keeps the meaning of an assignment to a declared variable: wherever the interpreter
/// carries out `x = e`, `x op= e`, `x++` or `x--` in a scope that agrees with a state of the
/// intermediate form, the variable then holds an integer or a boolean, and the lowered value
/// evaluates to it in that state.
pub proof fn law_lowered_assignment_stores(env: Env, vars: Seq<VarV>, state: Seq<MirValue>, var: VarId, kind: AssignmentKind)
    requires
        agrees(env, vars, state),
        var.0 < vars.len(),
    ensures
        lower_assign_value(vars, var, vars[var.0 as int].ty, kind) matches Ok(m) ==> (
            assign_name(env, vars[var.0 as int].name, kind@) matches Some(Ok(after)) ==> (
                current_value(after, vars[var.0 as int].name) matches Ok(v) && mir_value_of(v) is Some
                    && mir_eval(state, m) == mir_value_of(v))),
{
    let i = var.0 as int;
    let name = vars[i].name;
    assert(match current_value(env, name) {
        Ok(v) => mir_value_of(v) == Some(state[i]),
        Err(_) => true,
    });
    match kind {
        AssignmentKind::Simple(e) => {
            law_lowering_keeps_values(env, vars, state, e);
            if let Some(Ok(v)) = eval(env, e@) {
                if let Some(Ok(after)) = assign_name(env, name, kind@) {
                    assert(current_value(after, name) == Ok::<ValueV, LangErrorV>(v));
                }
            }
        },
        AssignmentKind::Compound { op, expr } => {
            reveal_with_fuel(mir_eval, 2);
            law_lowering_keeps_values(env, vars, state, expr);
            if op != BinaryOp::And && op != BinaryOp::Or {
                if let Some(Ok(rv)) = eval(env, expr@) {
                    if let Ok(lv) = current_value(env, name) {
                        if mir_value_of(rv) is Some {
                            lemma_binary_agrees(op, lv, rv);
                        }
                    }
                }
            }
        },
        AssignmentKind::Increment(op) => {
            reveal_with_fuel(mir_eval, 2);
            if let Ok(cur) = current_value(env, name) {
                if let Some(Ok(v)) = step_value(op, cur) {
                    if let Some(Ok(after)) = assign_name(env, name, kind@) {
                        assert(current_value(after, name) == Ok::<ValueV, LangErrorV>(v));
                    }
                }
            }
        },
    }
}

} // verus!
