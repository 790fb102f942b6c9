//! The tree-walking interpreter: runs statements against a scope and a type registry.
use vstd::prelude::*;
use crate::ast::{ArrayElement, Assignment, AssignmentKind, AssignmentTarget, BinaryOp, ElseBranch, Expr, IfStatement, IncrementOp, IndexTarget, Literal, Statement, StmtV, TypeAnnotation, UnaryOp, VarDeclaration, WhileStatement, element_view, elements_view, expr_opt_view, if_view, index_targets_view, lemma_elements_view, lemma_statements_view, lemma_types_view, statements_view, type_opt_view};
use crate::diagnostics::{LangError, LangErrorV};
use crate::scope::{BindingV, KindCheck, Scope};
use crate::semantics::{Env, block_names, if_names, lemma_block_names, lemma_same_outside_trans, same_outside, stmt_names, target_name, open_binary_outcome, open_unary_outcome, Flow, IndexV, Registry, Run, after, assign, assign_index, assign_into, assign_name, binary, block_ok, abs, current_value, declare, fits_i64, trunc_div, trunc_rem, element_array_type, eval, eval_elements, execution, flow_result, if_ok, resolve_annotation, resolve_indices, resolve_kind, run_block, run_if, run_stmt, run_while, stmt_ok, step_value, unary, value_result, values_view, loop_budget};
use crate::text::{owned, push_str};
use crate::types::{ArrayType, LangType, PrimitiveType, TypeKind, TypeRegistry, builtin_types};
use crate::value::{ArrayKey, ArrayValue, FloatOps, OrderTest, Value, ValueV, empty_array, insert_fits};

verus! {

/// Runs statements one at a time, keeping the variables they declare.
pub struct Interpreter {
    scope: Scope,
    registry: TypeRegistry,
}

/// A resolved index of an assignment target.
enum ResolvedIndex {
    Key(ArrayKey),
    Append,
}

impl View for ResolvedIndex {
    type V = IndexV;

    closed spec fn view(&self) -> IndexV {
        match self {
            ResolvedIndex::Key(k) => IndexV::Key(k@),
            ResolvedIndex::Append => IndexV::Append,
        }
    }
}

/// The views of resolved indices.
spec fn indices_view(idx: Seq<ResolvedIndex>) -> Seq<IndexV> {
    idx.map_values(|i: ResolvedIndex| i@)
}

/// The view of a resolved type or error.
pub open spec fn kind_result(r: Result<TypeKind, LangError>) -> Result<TypeKind, LangErrorV> {
    match r {
        Ok(k) => Ok(k),
        Err(e) => Err(e@),
    }
}

/// The message of an integer operation whose result leaves `i64`.
fn overflow_error() -> (r: LangError)
    ensures
        r@ == LangErrorV::Runtime("integer overflow"@),
{
    LangError::Runtime(owned("integer overflow"))
}

/// The message of an array index that leaves `i64`.
fn index_overflow_error() -> (r: LangError)
    ensures
        r@ == LangErrorV::Runtime("array index overflow"@),
{
    LangError::Runtime(owned("array index overflow"))
}

/// An integer result, or the overflow error.
fn int_value(r: Option<i64>) -> (v: Result<Value, LangError>)
    ensures
        match r {
            Some(i) => v matches Ok(x) && x@ == ValueV::Integer(i),
            None => v matches Err(e) && e@ == LangErrorV::Runtime("integer overflow"@),
        },
{
    match r {
        Some(i) => Ok(Value::Integer(i)),
        None => Err(overflow_error()),
    }
}

/// Rust's checked division and remainder compute [`trunc_div`] and [`trunc_rem`].
proof fn lemma_checked_div_rem(a: i64, b: i64)
    requires
        b != 0,
    ensures
        a.checked_div(b) == (if fits_i64(trunc_div(a as int, b as int)) {
            Some(trunc_div(a as int, b as int) as i64)
        } else {
            None::<i64>
        }),
        !(a == i64::MIN && b == -1) ==> a.checked_rem(b) == Some(trunc_rem(a as int, b as int) as i64),
{
    let x = a as int;
    let d = b as int;
    if x > 0 && d > 0 {
        assert(trunc_div(x, d) == x / d);
        assert(trunc_rem(x, d) == x % d);
    } else if x < 0 && d < 0 {
        assert(trunc_div(x, d) == (x * -1) / (d * -1));
        assert(trunc_rem(x, d) == ((x * -1) % (d * -1)) * -1);
    } else if x < 0 && d > 0 {
        assert(trunc_div(x, d) == ((x * -1) / d) * -1);
        assert(trunc_rem(x, d) == ((x * -1) % d) * -1);
    } else if x > 0 && d < 0 {
        assert(trunc_div(x, d) == (x / (d * -1)) * -1);
        assert(trunc_rem(x, d) == x % (d * -1));
    } else {
        assert(x == 0);
        assert(0int / abs(d) == 0) by (nonlinear_arith) requires abs(d) > 0;
        assert(0int % abs(d) == 0) by (nonlinear_arith) requires abs(d) > 0;
    }
    if !(a == i64::MIN && b == -1) {
        assert(0 <= abs(x) % abs(d) < abs(d)) by (nonlinear_arith) requires abs(d) > 0;
    }
}

/// The largest magnitude up to which every integer converts to a double exactly.
const EXACT_LIMIT: i64 = 9007199254740992;

/// The ordering test that a binary operator names.
fn order_test(op: BinaryOp) -> (t: OrderTest)
    ensures
        op == BinaryOp::Less ==> t == OrderTest::Less,
        op == BinaryOp::LessEqual ==> t == OrderTest::LessEqual,
        op == BinaryOp::Greater ==> t == OrderTest::Greater,
{
    match op {
        BinaryOp::Less => OrderTest::Less,
        BinaryOp::LessEqual => OrderTest::LessEqual,
        BinaryOp::Greater => OrderTest::Greater,
        _ => OrderTest::GreaterEqual,
    }
}

/// Applies a binary operator other than `&&` and `||` to two values.
fn eval_binary<F: FloatOps>(op: BinaryOp, left: Value, right: Value, floats: &F) -> (r: Result<Value, LangError>)
    requires
        op != BinaryOp::And,
        op != BinaryOp::Or,
    ensures
        binary(op, left@, right@) matches Some(x) ==> value_result(r) == x,
        binary(op, left@, right@) is None ==> open_binary_outcome(op, value_result(r)),
{
    match op {
        BinaryOp::Add => match (left, right) {
            (Value::Integer(a), Value::Integer(b)) => int_value(a.checked_add(b)),
            (Value::Float(a), Value::Float(b)) => Ok(Value::Float(floats.float_add(a, b))),
            (Value::Str(a), Value::Str(b)) => {
                let mut s = a;
                push_str(&mut s, b.as_str());
                Ok(Value::Str(s))
            },
            _ => Err(LangError::Type(owned("`+` expects matching numeric types or strings"))),
        },
        BinaryOp::Subtract => match (left, right) {
            (Value::Integer(a), Value::Integer(b)) => int_value(a.checked_sub(b)),
            (Value::Float(a), Value::Float(b)) => Ok(Value::Float(floats.float_sub(a, b))),
            _ => Err(LangError::Type(owned("`-` expects matching numeric types"))),
        },
        BinaryOp::Multiply => match (left, right) {
            (Value::Integer(a), Value::Integer(b)) => int_value(a.checked_mul(b)),
            (Value::Float(a), Value::Float(b)) => Ok(Value::Float(floats.float_mul(a, b))),
            _ => Err(LangError::Type(owned("`*` expects matching numeric types"))),
        },
        BinaryOp::Divide => match (left, right) {
            (Value::Integer(a), Value::Integer(b)) => {
                if b == 0 {
                    Err(LangError::Runtime(owned("division by zero")))
                } else {
                    proof { lemma_checked_div_rem(a, b); }
                    int_value(a.checked_div(b))
                }
            },
            (Value::Float(a), Value::Float(b)) => {
                if floats.float_is_negligible(b) {
                    Err(LangError::Runtime(owned("division by zero")))
                } else {
                    Ok(Value::Float(floats.float_div(a, b)))
                }
            },
            _ => Err(LangError::Type(owned("`/` expects matching numeric types"))),
        },
        BinaryOp::Modulo => match (left, right) {
            (Value::Integer(a), Value::Integer(b)) => {
                if b == 0 {
                    Err(LangError::Runtime(owned("modulo by zero")))
                } else {
                    proof { lemma_checked_div_rem(a, b); }
                    int_value(a.checked_rem(b))
                }
            },
            _ => Err(LangError::Type(owned("`%` expects integer operands"))),
        },
        BinaryOp::Equal | BinaryOp::NotEqual => {
            let same = match (left, right) {
                (Value::Integer(a), Value::Integer(b)) => a == b,
                (Value::Float(a), Value::Float(b)) => floats.float_equal(a, b),
                (Value::Bool(a), Value::Bool(b)) => a == b,
                (Value::Str(a), Value::Str(b)) => a == b,
                _ => {
                    return Err(LangError::Type(owned("equality comparison requires matching operand types")));
                },
            };
            match op {
                BinaryOp::Equal => Ok(Value::Bool(same)),
                _ => Ok(Value::Bool(!same)),
            }
        },
        _ => {
            let test = order_test(op);
            match (left, right) {
                (Value::Integer(a), Value::Integer(b)) => {
                    if -EXACT_LIMIT <= a && a <= EXACT_LIMIT && -EXACT_LIMIT <= b && b <= EXACT_LIMIT {
                        Ok(Value::Bool(match op {
                            BinaryOp::Less => a < b,
                            BinaryOp::LessEqual => a <= b,
                            BinaryOp::Greater => a > b,
                            _ => a >= b,
                        }))
                    } else {
                        Ok(Value::Bool(floats.int_order_as_float(test, a, b)))
                    }
                },
                (Value::Float(a), Value::Float(b)) => Ok(Value::Bool(floats.float_order(test, a, b))),
                _ => Err(LangError::Type(owned("ordering comparison expects numeric operands"))),
            }
        },
    }
}

/// Applies a unary operator to a value.
fn eval_unary<F: FloatOps>(op: UnaryOp, value: Value, floats: &F) -> (r: Result<Value, LangError>)
    ensures
        unary(op, value@) matches Some(x) ==> value_result(r) == x,
        unary(op, value@) is None ==> open_unary_outcome(value_result(r)),
{
    match op {
        UnaryOp::Negate => match value {
            Value::Integer(v) => int_value(0i64.checked_sub(v)),
            Value::Float(v) => Ok(Value::Float(floats.float_neg(v))),
            _ => Err(LangError::Type(owned("unary `-` is only defined for integers and floats"))),
        },
        UnaryOp::Not => match value {
            Value::Bool(v) => Ok(Value::Bool(!v)),
            _ => Err(LangError::Type(owned("unary `!` is only defined for boolean values"))),
        },
    }
}

impl Interpreter {
    /// The variables in scope.
    pub closed spec fn env(&self) -> Env {
        self.scope@
    }

    /// The types known by name.
    pub closed spec fn types(&self) -> Registry {
        self.registry@
    }

    /// An interpreter with no variables and the builtin types.
    pub fn new() -> (r: Interpreter)
        ensures
            r.env() == Map::<Seq<char>, BindingV>::empty(),
            r.types() == builtin_types(),
    {
        Interpreter::with_registry(TypeRegistry::new())
    }

    /// An interpreter with no variables that resolves types with `registry`.
    pub fn with_registry(registry: TypeRegistry) -> (r: Interpreter)
        ensures
            r.env() == Map::<Seq<char>, BindingV>::empty(),
            r.types() == registry@,
    {
        Interpreter { scope: Scope::new(), registry }
    }

    /// The variables in scope.
    pub fn scope(&self) -> (r: &Scope)
        ensures
            r@ == self.env(),
    {
        &self.scope
    }

    /// The registry, for registering further types.
    pub fn registry_mut(&mut self) -> (r: &mut TypeRegistry)
        ensures
            r@ == old(self).types(),
            final(self).types() == final(r)@,
            final(self).env() == old(self).env(),
    {
        &mut self.registry
    }

    /// The current value of a variable.
    fn current_value(&self, name: &str) -> (r: Result<Value, LangError>)
        ensures
            value_result(r) == current_value(self.env(), name@),
    {
        match self.scope.get(name) {
            None => {
                let mut msg = owned("variable `");
                push_str(&mut msg, name);
                push_str(&mut msg, "` is not defined");
                Err(LangError::Runtime(msg))
            },
            Some(binding) => match binding.value() {
                Some(v) => Ok(v.copy()),
                None => {
                    let mut msg = owned("variable `");
                    push_str(&mut msg, name);
                    push_str(&mut msg, "` is uninitialized");
                    Err(LangError::Runtime(msg))
                },
            },
        }
    }

    /// Evaluates an expression.
    fn eval_expr<F: FloatOps>(&self, e: &Expr, floats: &F) -> (r: Result<Value, LangError>)
        ensures
            eval(self.env(), e@) matches Some(x) ==> value_result(r) == x,
        decreases e, 0nat,
    {
        match e {
            Expr::Literal(lit) => match lit {
                Literal::Integer(v) => Ok(Value::Integer(*v)),
                Literal::Float(text) => Ok(Value::Float(floats.parse_literal(text.as_str()))),
                Literal::Bool(v) => Ok(Value::Bool(*v)),
                Literal::Str(v) => Ok(Value::Str(v.clone())),
                Literal::Array(elements) => {
                    proof {
                        assert(decreases_to!(*e => *lit));
                        assert(decreases_to!(*lit => *elements));
                    }
                    match self.eval_elements(elements, floats) {
                        Ok(a) => Ok(Value::Array(a)),
                        Err(x) => Err(x),
                    }
                },
            },
            Expr::Variable(name) => self.current_value(name.as_str()),
            Expr::Index { target, index } => {
                let base = match self.eval_expr(target, floats) {
                    Ok(v) => v,
                    Err(x) => return Err(x),
                };
                match base {
                    Value::Array(array) => {
                        let kv = match self.eval_expr(index, floats) {
                            Ok(v) => v,
                            Err(x) => return Err(x),
                        };
                        let key = match ArrayKey::from_value(kv) {
                            Ok(k) => k,
                            Err(x) => return Err(x),
                        };
                        match array.get(&key) {
                            Some(v) => Ok(v.copy()),
                            None => {
                                let mut msg = owned("key ");
                                let k = key.to_display_string();
                                push_str(&mut msg, k.as_str());
                                push_str(&mut msg, " not found");
                                Err(LangError::Runtime(msg))
                            },
                        }
                    },
                    _ => Err(LangError::Runtime(owned("attempt to index a non-array value"))),
                }
            },
            Expr::Unary { op, expr } => {
                let v = match self.eval_expr(expr, floats) {
                    Ok(v) => v,
                    Err(x) => return Err(x),
                };
                eval_unary(*op, v, floats)
            },
            Expr::Binary { left, op, right } => {
                if *op == BinaryOp::And || *op == BinaryOp::Or {
                    let short = *op == BinaryOp::Or;
                    let l = match self.eval_expr(left, floats) {
                        Ok(v) => v,
                        Err(x) => return Err(x),
                    };
                    match l {
                        Value::Bool(b) => {
                            if b == short {
                                Ok(Value::Bool(short))
                            } else {
                                let r = match self.eval_expr(right, floats) {
                                    Ok(v) => v,
                                    Err(x) => return Err(x),
                                };
                                match r {
                                    Value::Bool(c) => Ok(Value::Bool(c)),
                                    _ => Err(logical_error(*op)),
                                }
                            }
                        },
                        _ => Err(logical_error(*op)),
                    }
                } else {
                    let l = match self.eval_expr(left, floats) {
                        Ok(v) => v,
                        Err(x) => return Err(x),
                    };
                    let r = match self.eval_expr(right, floats) {
                        Ok(v) => v,
                        Err(x) => return Err(x),
                    };
                    eval_binary(*op, l, r, floats)
                }
            },
        }
    }

    /// Builds the array that an array literal's elements describe.
    fn eval_elements<F: FloatOps>(&self, elements: &Vec<ArrayElement>, floats: &F) -> (r: Result<ArrayValue, LangError>)
        ensures
            eval_elements(self.env(), elements_view(elements@), 0, empty_array()) matches Some(x) ==> match x {
                Ok(a) => r matches Ok(b) && b@ == a,
                Err(e) => r matches Err(f) && f@ == e,
            },
        decreases elements, 0nat,
    {
        let ghost env = self.env();
        let ghost els = elements_view(elements@);
        proof { lemma_elements_view(elements@); }
        let mut array = ArrayValue::new();
        let mut i: usize = 0;
        while i < elements.len()
            invariant
                self.env() == env,
                els == elements_view(elements@),
                els.len() == elements@.len(),
                forall|k: int| 0 <= k < elements@.len() ==> #[trigger] els[k] == element_view(elements@[k]),
                i <= els.len(),
                eval_elements(env, els, 0, empty_array()) is Some ==>
                    eval_elements(env, els, 0, empty_array()) == eval_elements(env, els, i as int, array@),
            decreases els.len() - i,
        {
            proof {
                assert(decreases_to!(*elements => elements@));
                assert(decreases_to!(elements@ => elements@[i as int]));
            }
            match &elements[i] {
                ArrayElement::Value(expr) => {
                    proof {
                        assert(decreases_to!(elements@[i as int] => *expr));
                    }
                    let v = match self.eval_expr(expr, floats) {
                        Ok(v) => v,
                        Err(x) => return Err(x),
                    };
                    if array.next_index() == i64::MAX {
                        return Err(index_overflow_error());
                    }
                    array.push(v);
                },
                ArrayElement::KeyValue { key, value } => {
                    proof {
                        assert(decreases_to!(elements@[i as int] => *key));
                        assert(decreases_to!(elements@[i as int] => *value));
                    }
                    let kv = match self.eval_expr(key, floats) {
                        Ok(v) => v,
                        Err(x) => return Err(x),
                    };
                    let k = match ArrayKey::from_value(kv) {
                        Ok(k) => k,
                        Err(x) => return Err(x),
                    };
                    let v = match self.eval_expr(value, floats) {
                        Ok(v) => v,
                        Err(x) => return Err(x),
                    };
                    if !array.insert_fits(&k) {
                        return Err(index_overflow_error());
                    }
                    array.insert(k, v);
                },
            }
            i = i + 1;
        }
        Ok(array)
    }
}

/// The error of `&&` or `||` on a non-boolean operand.
fn logical_error(op: BinaryOp) -> (r: LangError)
    ensures
        op == BinaryOp::And ==> r@ == LangErrorV::Type("logical `&&` expects boolean operands"@),
        op != BinaryOp::And ==> r@ == LangErrorV::Type("logical `||` expects boolean operands"@),
{
    match op {
        BinaryOp::And => LangError::Type(owned("logical `&&` expects boolean operands")),
        _ => LangError::Type(owned("logical `||` expects boolean operands")),
    }
}

/// The kind of the arrays stored in an array of type `at`.
fn element_array_type_of(at: &ArrayType) -> (r: Result<ArrayType, LangError>)
    ensures
        match element_array_type(*at) {
            Ok(t) => r matches Ok(u) && u == t,
            Err(e) => r matches Err(f) && f@ == e,
        },
{
    match at.value() {
        TypeKind::Array(inner) => Ok(inner.copy()),
        TypeKind::Primitive(PrimitiveType::Mixed) => Ok(ArrayType::new(
            TypeKind::Primitive(PrimitiveType::Mixed),
            TypeKind::Primitive(PrimitiveType::Mixed),
        )),
        other => {
            let mut msg = owned("cannot index into value of type ");
            let text = other.to_display_string();
            push_str(&mut msg, text.as_str());
            Err(LangError::Type(msg))
        },
    }
}

/// Stores `value` in `array` at the place that the indices from position `i` on name.
fn assign_into_array(at: &ArrayType, array: ArrayValue, idx: &Vec<ResolvedIndex>, i: usize, value: Value) -> (r: Result<ArrayValue, LangError>)
    ensures
        match assign_into(*at, array@, indices_view(idx@), i as int, value@) {
            Ok(a) => r matches Ok(b) && b@ == a,
            Err(e) => r matches Err(f) && f@ == e,
        },
    decreases idx@.len() - i,
{
    let ghost iv = indices_view(idx@);
    if i >= idx.len() {
        return Err(LangError::Runtime(owned("missing index for array assignment")));
    }
    assert(iv[i as int] == idx@[i as int]@);
    match &idx[i] {
        ResolvedIndex::Append => {
            if i + 1 != idx.len() {
                Err(LangError::Runtime(owned("`[]` append syntax can only appear at the end of the index chain")))
            } else if array.next_index() == i64::MAX {
                Err(index_overflow_error())
            } else {
                let mut a = array;
                a.push(value);
                Ok(a)
            }
        },
        ResolvedIndex::Key(k) => {
            if i + 1 == idx.len() {
                if array.insert_fits(k) {
                    let mut a = array;
                    a.insert(k.copy(), value);
                    Ok(a)
                } else {
                    Err(index_overflow_error())
                }
            } else {
                match array.position(k) {
                    None => {
                        let mut msg = owned("key ");
                        let text = k.to_display_string();
                        push_str(&mut msg, text.as_str());
                        push_str(&mut msg, " does not exist for assignment");
                        Err(LangError::Runtime(msg))
                    },
                    Some(p) => {
                        let ghost before = array@;
                        proof { crate::value::lemma_find_key(before.entries, k@, 0); }
                        let mut a = array;
                        let entry = a.replace_at(p, Value::Bool(false));
                        match entry {
                            Value::Array(inner) => {
                                let next = match element_array_type_of(at) {
                                    Ok(t) => t,
                                    Err(x) => return Err(x),
                                };
                                let updated = match assign_into_array(&next, inner, idx, i + 1, value) {
                                    Ok(u) => u,
                                    Err(x) => return Err(x),
                                };
                                let ghost uv = updated@;
                                a.replace_at(p, Value::Array(updated));
                                assert(a@.entries =~= before.entries.update(p as int, (k@, ValueV::Array(uv))));
                                Ok(a)
                            },
                            _ => Err(LangError::Runtime(owned("cannot index into non-array value"))),
                        }
                    },
                }
            }
        },
    }
}

/// The value that `++` or `--` gives.
fn step_value_of<F: FloatOps>(op: IncrementOp, v: Value, floats: &F) -> (r: Result<Value, LangError>)
    ensures
        step_value(op, v@) matches Some(x) ==> value_result(r) == x,
{
    match v {
        Value::Integer(i) => match op {
            IncrementOp::Increment => int_value(i.checked_add(1)),
            IncrementOp::Decrement => int_value(i.checked_sub(1)),
        },
        Value::Float(f) => match op {
            IncrementOp::Increment => Ok(Value::Float(floats.float_increment(f))),
            IncrementOp::Decrement => Ok(Value::Float(floats.float_decrement(f))),
        },
        _ => {
            let mut msg = owned("`");
            match op {
                IncrementOp::Increment => push_str(&mut msg, "++"),
                IncrementOp::Decrement => push_str(&mut msg, "--"),
            }
            push_str(&mut msg, "` can only be applied to numeric values");
            Err(LangError::Type(msg))
        },
    }
}

/// The error of a condition that is not a boolean.
fn condition_error(what: &str) -> (r: LangError)
    ensures
        r@ == LangErrorV::Type(crate::semantics::condition_message(what@)),
{
    let mut msg = owned(what);
    push_str(&mut msg, " condition must be boolean: ");
    push_str(&mut msg, "Type error: ");
    push_str(&mut msg, "expected bool value");
    assert(msg@ =~= crate::semantics::condition_message(what@));
    LangError::Type(msg)
}

/// Whether a scope change matches what `x` says: the new scope on success, the old scope and the
/// error on failure.
pub open spec fn scope_outcome(before: Env, after: Env, r: Result<(), LangError>, x: Result<Env, LangErrorV>) -> bool {
    match x {
        Ok(e) => r is Ok && after == e,
        Err(err) => r matches Err(f) && f@ == err && after == before,
    }
}

/// Whether a statement run matches what `x` says: the scope it leaves, the values it appended to
/// the output, and how control left it.
pub open spec fn ran(x: Run, out_before: Seq<Value>, env_after: Env, out_after: Seq<Value>, r: Result<Flow, LangError>) -> bool {
    &&& env_after == x.env
    &&& values_view(out_after) == values_view(out_before) + x.out
    &&& flow_result(r) == x.flow
}

/// `stmt_ok` of each statement of a block whose statements from `i` on are all ok.
proof fn lemma_block_ok(stmts: Seq<StmtV>, i: int, k: int)
    requires
        0 <= i <= k < stmts.len(),
        block_ok(stmts, i),
    ensures
        stmt_ok(stmts[k]),
    decreases k - i,
{
    if i < k {
        lemma_block_ok(stmts, i + 1, k);
    }
}

impl Interpreter {
    /// The kind that a written type denotes.
    fn resolve_kind_of(&self, ann: &TypeAnnotation) -> (r: Result<TypeKind, LangError>)
        ensures
            kind_result(r) == resolve_kind(self.types(), ann@),
        decreases ann,
    {
        proof { lemma_types_view(ann.generics@); }
        let mixed = TypeKind::Primitive(PrimitiveType::Mixed);
        let n = ann.generics.len();
        if crate::text::str_eq(ann.name.as_str(), "arr") {
            if n == 0 {
                Ok(TypeKind::Array(Box::new(ArrayType::new(mixed, TypeKind::Primitive(PrimitiveType::Mixed)))))
            } else {
                proof {
                    assert(decreases_to!(*ann => ann.generics));
                    assert(decreases_to!(ann.generics => ann.generics@));
                    assert(decreases_to!(ann.generics@ => ann.generics@[0]));
                }
                let first = match self.resolve_kind_of(&ann.generics[0]) {
                    Ok(k) => k,
                    Err(x) => return Err(x),
                };
                if n == 1 {
                    Ok(TypeKind::Array(Box::new(ArrayType::new(mixed, first))))
                } else {
                    proof {
                        assert(decreases_to!(ann.generics@ => ann.generics@[1]));
                    }
                    let second = match self.resolve_kind_of(&ann.generics[1]) {
                        Ok(k) => k,
                        Err(x) => return Err(x),
                    };
                    Ok(TypeKind::Array(Box::new(ArrayType::new(first, second))))
                }
            }
        } else if n != 0 {
            let mut msg = owned("type `");
            push_str(&mut msg, ann.name.as_str());
            push_str(&mut msg, "` does not accept generic arguments");
            Err(LangError::Type(msg))
        } else {
            match self.registry.resolve(ann.name.as_str()) {
                Some(k) => Ok(k),
                None => Err(LangError::unknown_type(ann.name.as_str())),
            }
        }
    }

    /// The type of a declaration with the given annotation.
    fn resolve_annotation_of(&self, ann: &Option<TypeAnnotation>) -> (r: Result<TypeKind, LangError>)
        ensures
            kind_result(r) == resolve_annotation(self.types(), type_opt_view(*ann)),
    {
        match ann {
            None => Ok(TypeKind::Primitive(PrimitiveType::Mixed)),
            Some(a) => self.resolve_kind_of(a),
        }
    }

    /// Runs a declaration.
    fn exec_declare<F: FloatOps>(&mut self, d: &VarDeclaration, floats: &F) -> (r: Result<(), LangError>)
        ensures
            final(self).types() == old(self).types(),
            declare(old(self).types(), old(self).env(), d.name@, type_opt_view(d.ty), d.mutable, expr_opt_view(d.value))
                matches Some(x) ==> scope_outcome(old(self).env(), final(self).env(), r, x),
            same_outside(old(self).env(), final(self).env(), set![d.name@]),
    {
        let kind = match self.resolve_annotation_of(&d.ty) {
            Ok(k) => k,
            Err(x) => return Err(x),
        };
        let ty = LangType::new(kind, d.mutable);
        match &d.value {
            None => self.scope.declare(d.name.as_str(), ty),
            Some(e) => {
                let v = match self.eval_expr(e, floats) {
                    Ok(v) => v,
                    Err(x) => return Err(x),
                };
                self.scope.declare_with_value_checked(KindCheck::ArraysByDeclaration, d.name.as_str(), ty, v)
            },
        }
    }

    /// Runs an assignment to a variable by name.
    fn exec_assign_name<F: FloatOps>(&mut self, name: &str, kind: &AssignmentKind, floats: &F) -> (r: Result<(), LangError>)
        requires
            kind matches AssignmentKind::Compound { op, expr } ==> op != BinaryOp::And && op != BinaryOp::Or,
        ensures
            final(self).types() == old(self).types(),
            assign_name(old(self).env(), name@, kind@) matches Some(x) ==> scope_outcome(old(self).env(), final(self).env(), r, x),
            same_outside(old(self).env(), final(self).env(), set![name@]),
    {
        let v = match kind {
            AssignmentKind::Simple(e) => match self.eval_expr(e, floats) {
                Ok(v) => v,
                Err(x) => return Err(x),
            },
            AssignmentKind::Compound { op, expr } => {
                let rhs = match self.eval_expr(expr, floats) {
                    Ok(v) => v,
                    Err(x) => return Err(x),
                };
                let lhs = match self.current_value(name) {
                    Ok(v) => v,
                    Err(x) => return Err(x),
                };
                match eval_binary(*op, lhs, rhs, floats) {
                    Ok(v) => v,
                    Err(x) => return Err(x),
                }
            },
            AssignmentKind::Increment(op) => {
                let cur = match self.current_value(name) {
                    Ok(v) => v,
                    Err(x) => return Err(x),
                };
                match step_value_of(*op, cur, floats) {
                    Ok(v) => v,
                    Err(x) => return Err(x),
                }
            },
        };
        self.scope.assign_checked(KindCheck::ArraysByDeclaration, name, v)
    }

    /// Evaluates the indices of an assignment target in order.
    fn resolve_indices_of<F: FloatOps>(&self, idx: &Vec<IndexTarget>, floats: &F) -> (r: Result<Vec<ResolvedIndex>, LangError>)
        ensures
            resolve_indices(self.env(), index_targets_view(idx@), 0, Seq::empty()) matches Some(x) ==> match x {
                Ok(keys) => r matches Ok(v) && indices_view(v@) == keys,
                Err(e) => r matches Err(f) && f@ == e,
            },
    {
        let ghost env = self.env();
        let ghost target = resolve_indices(env, index_targets_view(idx@), 0, Seq::empty());
        let mut resolved: Vec<ResolvedIndex> = Vec::new();
        let mut i: usize = 0;
        assert(indices_view(resolved@) =~= Seq::<IndexV>::empty());
        while i < idx.len()
            invariant
                self.env() == env,
                target == resolve_indices(env, index_targets_view(idx@), 0, Seq::empty()),
                i <= idx@.len(),
                target is Some ==> target == resolve_indices(env, index_targets_view(idx@), i as int, indices_view(resolved@)),
            decreases idx@.len() - i,
        {
            match &idx[i] {
                IndexTarget::Append => {
                    let ghost before = resolved@;
                    resolved.push(ResolvedIndex::Append);
                    assert(indices_view(resolved@) =~= indices_view(before).push(IndexV::Append));
                },
                IndexTarget::Index(e) => {
                    let kv = match self.eval_expr(e, floats) {
                        Ok(v) => v,
                        Err(x) => return Err(x),
                    };
                    let k = match ArrayKey::from_value(kv) {
                        Ok(k) => k,
                        Err(x) => return Err(x),
                    };
                    let ghost before = resolved@;
                    let ghost kv = k@;
                    resolved.push(ResolvedIndex::Key(k));
                    assert(indices_view(resolved@) =~= indices_view(before).push(IndexV::Key(kv)));
                },
            }
            i = i + 1;
        }
        Ok(resolved)
    }

    /// Runs an assignment through a chain of indices.
    fn exec_assign_index<F: FloatOps>(&mut self, name: &str, idx: &Vec<IndexTarget>, kind: &AssignmentKind, floats: &F) -> (r: Result<(), LangError>)
        ensures
            final(self).types() == old(self).types(),
            assign_index(old(self).env(), name@, index_targets_view(idx@), kind@) matches Some(x) ==> scope_outcome(old(self).env(), final(self).env(), r, x),
            same_outside(old(self).env(), final(self).env(), set![name@]),
    {
        let expr = match kind {
            AssignmentKind::Simple(e) => e,
            _ => return Err(LangError::Type(owned("only simple assignments are supported for indexed targets"))),
        };
        let value = match self.eval_expr(expr, floats) {
            Ok(v) => v,
            Err(x) => return Err(x),
        };
        let resolved = match self.resolve_indices_of(idx, floats) {
            Ok(v) => v,
            Err(x) => return Err(x),
        };
        let binding_kind = match self.scope.get(name) {
            Some(b) => b.ty().kind.copy(),
            None => {
                let mut msg = owned("variable `");
                push_str(&mut msg, name);
                push_str(&mut msg, "` is not defined");
                return Err(LangError::Runtime(msg));
            },
        };
        let current = match self.current_value(name) {
            Ok(v) => v,
            Err(x) => return Err(x),
        };
        match binding_kind {
            TypeKind::Array(at) => match current {
                Value::Array(a) => {
                    let updated = match assign_into_array(&at, a, &resolved, 0, value) {
                        Ok(u) => u,
                        Err(x) => return Err(x),
                    };
                    self.scope.assign_checked(KindCheck::ArraysByDeclaration, name, Value::Array(updated))
                },
                _ => Err(LangError::Runtime(owned("attempt to index into uninitialized array"))),
            },
            _ => Err(LangError::Type(owned("attempt to index into non-array binding"))),
        }
    }

    /// Runs an assignment.
    fn exec_assign<F: FloatOps>(&mut self, a: &Assignment, floats: &F) -> (r: Result<(), LangError>)
        requires
            a.kind matches AssignmentKind::Compound { op, expr } ==> op != BinaryOp::And && op != BinaryOp::Or,
        ensures
            final(self).types() == old(self).types(),
            assign(old(self).env(), a.target@, a.kind@) matches Some(x) ==> scope_outcome(old(self).env(), final(self).env(), r, x),
            same_outside(old(self).env(), final(self).env(), set![target_name(a.target@)]),
    {
        match &a.target {
            AssignmentTarget::Name(name) => self.exec_assign_name(name.as_str(), &a.kind, floats),
            AssignmentTarget::Indexed { name, indices } => self.exec_assign_index(name.as_str(), indices, &a.kind, floats),
        }
    }
}

impl Interpreter {
    /// Runs one statement, appending what it echoes to `out`.
    fn exec_stmt<F: FloatOps>(&mut self, s: &Statement, out: &mut Vec<Value>, floats: &F) -> (r: Result<Flow, LangError>)
        requires
            stmt_ok(s@),
        ensures
            final(self).types() == old(self).types(),
            run_stmt(old(self).types(), old(self).env(), s@) matches Some(x) ==> ran(x, old(out)@, final(self).env(), final(out)@, r),
            same_outside(old(self).env(), final(self).env(), stmt_names(s@)),
        decreases s, 0nat,
    {
        let ghost out0 = out@;
        assert(values_view(out0) + Seq::<ValueV>::empty() =~= values_view(out0));
        match s {
            Statement::Let(d) => match self.exec_declare(d, floats) {
                Ok(()) => Ok(Flow::Normal),
                Err(x) => Err(x),
            },
            Statement::Assignment(a) => match self.exec_assign(a, floats) {
                Ok(()) => Ok(Flow::Normal),
                Err(x) => Err(x),
            },
            Statement::Echo(e) => {
                let v = match self.eval_expr(e, floats) {
                    Ok(v) => v,
                    Err(x) => return Err(x),
                };
                let ghost vv = v@;
                out.push(v);
                assert(values_view(out@) =~= values_view(out0) + seq![vv]);
                Ok(Flow::Normal)
            },
            Statement::If(i) => self.exec_if(i, out, floats),
            Statement::While(w) => self.exec_while(w, out, floats),
            Statement::Break => Ok(Flow::Break),
            Statement::Continue => Ok(Flow::Continue),
        }
    }

    /// Runs the statements of a block until one does not finish normally.
    fn exec_block<F: FloatOps>(&mut self, stmts: &Vec<Statement>, out: &mut Vec<Value>, floats: &F) -> (r: Result<Flow, LangError>)
        requires
            block_ok(statements_view(stmts@), 0),
        ensures
            final(self).types() == old(self).types(),
            run_block(old(self).types(), old(self).env(), statements_view(stmts@), 0) matches Some(x) ==> ran(x, old(out)@, final(self).env(), final(out)@, r),
            same_outside(old(self).env(), final(self).env(), block_names(statements_view(stmts@), 0)),
        decreases stmts, 0nat,
    {
        let ghost reg = self.types();
        let ghost env0 = self.env();
        let ghost out0 = out@;
        let ghost sv = statements_view(stmts@);
        proof { lemma_statements_view(stmts@); }
        let ghost target = run_block(reg, env0, sv, 0);
        let ghost mut acc: Seq<ValueV> = Seq::empty();
        assert(values_view(out0) + acc =~= values_view(out0));
        assert(after(acc, run_block(reg, env0, sv, 0)) == target) by {
            if let Some(t) = target {
                assert(acc + t.out =~= t.out);
            }
        }
        let mut result: Result<Flow, LangError> = Ok(Flow::Normal);
        let mut running = true;
        let mut k: usize = 0;
        while running && k < stmts.len()
            invariant
                self.types() == reg,
                k <= stmts@.len(),
                sv == statements_view(stmts@),
                sv.len() == stmts@.len(),
                forall|n: int| 0 <= n < stmts@.len() ==> #[trigger] sv[n] == stmts@[n]@,
                block_ok(sv, 0),
                target == run_block(reg, env0, sv, 0),
                running ==> result matches Ok(Flow::Normal),
                target is Some && running ==> values_view(out@) == values_view(out0) + acc,
                target is Some && running ==> target == after(acc, run_block(reg, self.env(), sv, k as int)),
                target is Some && !running ==> ran(target.unwrap(), out0, self.env(), out@, result),
                same_outside(env0, self.env(), block_names(sv, 0)),
            decreases stmts@.len() - k,
        {
            proof {
                lemma_block_ok(sv, 0, k as int);
                assert(decreases_to!(*stmts => stmts@));
                assert(decreases_to!(stmts@ => stmts@[k as int]));
            }
            let ghost env_k = self.env();
            let ghost step = run_stmt(reg, env_k, sv[k as int]);
            let r = self.exec_stmt(&stmts[k], out, floats);
            proof {
                lemma_block_names(sv, 0, k as int);
                lemma_same_outside_trans(env0, env_k, self.env(), stmt_names(sv[k as int]), block_names(sv, 0));
                if target is Some {
                    let x = step.unwrap();
                    assert(values_view(out@) == values_view(out0) + (acc + x.out));
                    if r matches Ok(Flow::Normal) {
                        let rest = run_block(reg, self.env(), sv, k + 1);
                        if let Some(t) = rest {
                            assert(acc + (x.out + t.out) =~= (acc + x.out) + t.out);
                        }
                    }
                    acc = acc + x.out;
                }
            }
            match r {
                Ok(Flow::Normal) => {},
                _ => {
                    result = r;
                    running = false;
                },
            }
            k = k + 1;
        }
        proof {
            if target is Some && running {
                assert(acc + Seq::<ValueV>::empty() =~= acc);
            }
        }
        result
    }

    /// Runs an `if` statement.
    fn exec_if<F: FloatOps>(&mut self, i: &IfStatement, out: &mut Vec<Value>, floats: &F) -> (r: Result<Flow, LangError>)
        requires
            if_ok(if_view(*i)),
        ensures
            final(self).types() == old(self).types(),
            run_if(old(self).types(), old(self).env(), if_view(*i)) matches Some(x) ==> ran(x, old(out)@, final(self).env(), final(out)@, r),
            same_outside(old(self).env(), final(self).env(), if_names(if_view(*i))),
        decreases i, 0nat,
    {
        assert(values_view(out@) + Seq::<ValueV>::empty() =~= values_view(out@));
        let cond = match self.eval_expr(&i.condition, floats) {
            Ok(v) => v,
            Err(x) => return Err(x),
        };
        match cond {
            Value::Bool(true) => self.exec_block(&i.then_branch, out, floats),
            Value::Bool(false) => match &i.else_branch {
                None => Ok(Flow::Normal),
                Some(b) => match &**b {
                    ElseBranch::If(nested) => {
                        proof {
                            assert(decreases_to!(*i => i.else_branch));
                        }
                        self.exec_if(nested, out, floats)
                    },
                    ElseBranch::Block(block) => self.exec_block(block, out, floats),
                },
            },
            _ => Err(condition_error("if")),
        }
    }

    /// Runs a `while` statement, at most `u64::MAX` iterations.
    fn exec_while<F: FloatOps>(&mut self, w: &WhileStatement, out: &mut Vec<Value>, floats: &F) -> (r: Result<Flow, LangError>)
        requires
            block_ok(statements_view(w.body@), 0),
        ensures
            final(self).types() == old(self).types(),
            run_while(old(self).types(), old(self).env(), Statement::While(*w)@, loop_budget()) matches Some(x) ==> ran(x, old(out)@, final(self).env(), final(out)@, r),
            same_outside(old(self).env(), final(self).env(), block_names(statements_view(w.body@), 0)),
        decreases w, 0nat,
    {
        let ghost reg = self.types();
        let ghost env0 = self.env();
        let ghost out0 = out@;
        let ghost wv = Statement::While(*w)@;
        let ghost target = run_while(reg, env0, wv, loop_budget());
        let ghost mut acc: Seq<ValueV> = Seq::empty();
        let mut fuel: u64 = u64::MAX;
        assert(values_view(out0) + acc =~= values_view(out0));
        assert(after(acc, target) == target) by {
            if let Some(t) = target {
                assert(acc + t.out =~= t.out);
            }
        }
        let mut result: Result<Flow, LangError> = Ok(Flow::Normal);
        let mut running = true;
        while running
            invariant
                self.types() == reg,
                block_ok(statements_view(w.body@), 0),
                wv == Statement::While(*w)@,
                target == run_while(reg, env0, wv, loop_budget()),
                target is Some && running ==> values_view(out@) == values_view(out0) + acc,
                target is Some && running ==> target == after(acc, run_while(reg, self.env(), wv, fuel as nat)),
                target is Some && !running ==> ran(target.unwrap(), out0, self.env(), out@, result),
                same_outside(env0, self.env(), block_names(statements_view(w.body@), 0)),
            decreases fuel as int + (if running { 1int } else { 0int }),
        {
            let ghost env_k = self.env();
            proof {
                if target is Some {
                    assert(values_view(out@) + Seq::<ValueV>::empty() =~= values_view(out@));
                }
            }
            match self.eval_expr(&w.condition, floats) {
                Err(x) => {
                    result = Err(x);
                    running = false;
                },
                Ok(Value::Bool(false)) => {
                    result = Ok(Flow::Normal);
                    running = false;
                },
                Ok(Value::Bool(true)) => {
                    if fuel == 0 {
                        result = Err(LangError::Runtime(owned("loop iteration limit exceeded")));
                        running = false;
                    } else {
                        let ghost body = run_block(reg, env_k, statements_view(w.body@), 0);
                        let r = self.exec_block(&w.body, out, floats);
                        proof {
                            lemma_same_outside_trans(env0, env_k, self.env(), block_names(statements_view(w.body@), 0), block_names(statements_view(w.body@), 0));
                            if target is Some {
                                let x = body.unwrap();
                                assert(values_view(out@) == values_view(out0) + (acc + x.out));
                                if r matches Ok(f) && f != Flow::Break {
                                    let rest = run_while(reg, self.env(), wv, (fuel - 1) as nat);
                                    if let Some(t) = rest {
                                        assert(acc + (x.out + t.out) =~= (acc + x.out) + t.out);
                                    }
                                }
                                acc = acc + x.out;
                            }
                        }
                        match r {
                            Ok(Flow::Break) => {
                                result = Ok(Flow::Normal);
                                running = false;
                            },
                            Ok(_) => {
                                fuel = fuel - 1;
                            },
                            Err(x) => {
                                result = Err(x);
                                running = false;
                            },
                        }
                    }
                },
                Ok(_) => {
                    result = Err(condition_error("while"));
                    running = false;
                },
            }
        }
        result
    }

    /// Runs a statement at the top level and returns the values it echoed. `break` and `continue`
    /// outside a loop are errors; the scope keeps what the statement did before an error.
    pub fn execute<F: FloatOps>(&mut self, statement: Statement, floats: &F) -> (r: Result<Vec<Value>, LangError>)
        requires
            stmt_ok(statement@),
        ensures
            final(self).types() == old(self).types(),
            execution(old(self).types(), old(self).env(), statement@) matches Some(x) ==> {
                &&& final(self).env() == x.0
                &&& match x.1 {
                    Ok(vs) => r matches Ok(v) && values_view(v@) == vs,
                    Err(e) => r matches Err(f) && f@ == e,
                }
            },
            same_outside(old(self).env(), final(self).env(), stmt_names(statement@)),
    {
        self.run_statement(&statement, floats)
    }

    /// [`Interpreter::execute`] on a borrowed statement.
    pub(crate) fn run_statement<F: FloatOps>(&mut self, statement: &Statement, floats: &F) -> (r: Result<Vec<Value>, LangError>)
        requires
            stmt_ok(statement@),
        ensures
            final(self).types() == old(self).types(),
            execution(old(self).types(), old(self).env(), statement@) matches Some(x) ==> {
                &&& final(self).env() == x.0
                &&& match x.1 {
                    Ok(vs) => r matches Ok(v) && values_view(v@) == vs,
                    Err(e) => r matches Err(f) && f@ == e,
                }
            },
            same_outside(old(self).env(), final(self).env(), stmt_names(statement@)),
    {
        let mut output: Vec<Value> = Vec::new();
        assert(values_view(output@) =~= Seq::<ValueV>::empty());
        let flow = match self.exec_stmt(statement, &mut output, floats) {
            Ok(f) => f,
            Err(x) => return Err(x),
        };
        match flow {
            Flow::Normal => {
                assert(Seq::<ValueV>::empty() + values_view(output@) =~= values_view(output@));
                Ok(output)
            },
            Flow::Break => Err(LangError::Runtime(owned("`break` outside of loop"))),
            Flow::Continue => Err(LangError::Runtime(owned("`continue` outside of loop"))),
        }
    }
}

} // verus!
