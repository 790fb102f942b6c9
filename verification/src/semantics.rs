//! The meaning of programs: how expressions evaluate and statements run.
//!
//! Evaluation is described over the views of the interpreter's state. Every operation that
//! needs float arithmetic is left open: wherever a run reaches one, the description gives
//! `None` and says nothing about the outcome.
use vstd::prelude::*;
use crate::ast::{BinaryOp, ElementV, ElseV, ExprV, IfV, IncrementOp, IndexTargetV, KindV, LiteralV, StmtV, TargetV, TypeV, UnaryOp, if_wf, stmt_wf, stmts_wf};
use crate::diagnostics::{LangError, LangErrorV, lang_error_text};
use crate::scope::{BindingV, KindCheck, kind_accepts, not_defined, scope_assign, scope_declare, scope_declare_with_value};
use crate::types::{ArrayType, LangType, PrimitiveType, TypeKind, kind_text};
use crate::value::{ArrayV, KeyV, Value, ValueV, array_get, array_insert, array_push, empty_array, insert_fits, key_index, key_text, value_kind};

verus! {

/// The variables in scope, by name.
pub type Env = Map<Seq<char>, BindingV>;

/// How a statement hands control back: normally, or by `break` or `continue`.
#[derive(Debug, Clone, Copy, PartialEq, Eq, Structural)]
pub enum Flow {
    Normal,
    Break,
    Continue,
}

/// A resolved index of an assignment target.
pub enum IndexV {
    Key(KeyV),
    Append,
}

/// The most iterations that one run of a `while` statement performs before it stops with an error.
pub open spec fn loop_budget() -> nat {
    18446744073709551615
}

/// The message of an integer operation whose result leaves `i64`.
pub open spec fn overflow_message() -> Seq<char> {
    "integer overflow"@
}

/// The message of an array index that leaves `i64`.
pub open spec fn index_overflow_message() -> Seq<char> {
    "array index overflow"@
}

/// The message of a loop that ran out of its iteration budget.
pub open spec fn budget_message() -> Seq<char> {
    "loop iteration limit exceeded"@
}

/// The absolute value.
pub open spec fn abs(a: int) -> int {
    if a < 0 {
        -a
    } else {
        a
    }
}

/// Integer division rounding toward zero, as Rust's `/` does.
pub open spec fn trunc_div(a: int, b: int) -> int {
    let q = abs(a) / abs(b);
    if (a < 0) != (b < 0) {
        -q
    } else {
        q
    }
}

/// The remainder of [`trunc_div`]: it has the sign of `a`, as Rust's `%` does.
pub open spec fn trunc_rem(a: int, b: int) -> int {
    let r = abs(a) % abs(b);
    if a < 0 {
        -r
    } else {
        r
    }
}

/// Whether an integer lies in `i64`.
pub open spec fn fits_i64(x: int) -> bool {
    i64::MIN <= x <= i64::MAX
}

/// An integer result, or the overflow error.
pub open spec fn int_result(x: int) -> Result<ValueV, LangErrorV> {
    if fits_i64(x) {
        Ok(ValueV::Integer(x as i64))
    } else {
        Err(LangErrorV::Runtime(overflow_message()))
    }
}

/// The key that a value indexes an array with.
pub open spec fn key_of(v: ValueV) -> Result<KeyV, LangErrorV> {
    match v {
        ValueV::Integer(i) => Ok(KeyV::Int(i)),
        ValueV::Str(s) => Ok(KeyV::Str(s)),
        other => Err(LangErrorV::Type("array indices must be integers or strings, got "@ + kind_text(value_kind(other)))),
    }
}

/// The current value of a variable.
pub open spec fn current_value(env: Env, name: Seq<char>) -> Result<ValueV, LangErrorV> {
    if !env.contains_key(name) {
        Err(LangErrorV::Runtime(not_defined(name)))
    } else {
        match env[name].value {
            Some(v) => Ok(v),
            None => Err(LangErrorV::Runtime("variable `"@ + name + "` is uninitialized"@)),
        }
    }
}

/// Whether an integer is small enough that converting it to a double is exact.
pub open spec fn exact_in_double(a: int) -> bool {
    -9007199254740992 <= a <= 9007199254740992
}

/// The ordering test between two integers, compared (as the language does) after conversion to
/// doubles; open when a conversion may round.
pub open spec fn int_order(op: BinaryOp, a: int, b: int) -> Option<bool> {
    if exact_in_double(a) && exact_in_double(b) {
        Some(match op {
            BinaryOp::Less => a < b,
            BinaryOp::LessEqual => a <= b,
            BinaryOp::Greater => a > b,
            _ => a >= b,
        })
    } else {
        None
    }
}

/// A binary operation other than `&&` and `||` on two values.
pub open spec fn binary(op: BinaryOp, l: ValueV, r: ValueV) -> Option<Result<ValueV, LangErrorV>> {
    match op {
        BinaryOp::Add => match (l, r) {
            (ValueV::Integer(a), ValueV::Integer(b)) => Some(int_result(a + b)),
            (ValueV::Float(_), ValueV::Float(_)) => None,
            (ValueV::Str(a), ValueV::Str(b)) => Some(Ok(ValueV::Str(a + b))),
            _ => Some(Err(LangErrorV::Type("`+` expects matching numeric types or strings"@))),
        },
        BinaryOp::Subtract => match (l, r) {
            (ValueV::Integer(a), ValueV::Integer(b)) => Some(int_result(a - b)),
            (ValueV::Float(_), ValueV::Float(_)) => None,
            _ => Some(Err(LangErrorV::Type("`-` expects matching numeric types"@))),
        },
        BinaryOp::Multiply => match (l, r) {
            (ValueV::Integer(a), ValueV::Integer(b)) => Some(int_result(a * b)),
            (ValueV::Float(_), ValueV::Float(_)) => None,
            _ => Some(Err(LangErrorV::Type("`*` expects matching numeric types"@))),
        },
        BinaryOp::Divide => match (l, r) {
            (ValueV::Integer(a), ValueV::Integer(b)) => if b == 0 {
                Some(Err(LangErrorV::Runtime("division by zero"@)))
            } else {
                Some(int_result(trunc_div(a as int, b as int)))
            },
            (ValueV::Float(_), ValueV::Float(_)) => None,
            _ => Some(Err(LangErrorV::Type("`/` expects matching numeric types"@))),
        },
        BinaryOp::Modulo => match (l, r) {
            (ValueV::Integer(a), ValueV::Integer(b)) => if b == 0 {
                Some(Err(LangErrorV::Runtime("modulo by zero"@)))
            } else if a == i64::MIN && b == -1 {
                Some(Err(LangErrorV::Runtime(overflow_message())))
            } else {
                Some(Ok(ValueV::Integer(trunc_rem(a as int, b as int) as i64)))
            },
            _ => Some(Err(LangErrorV::Type("`%` expects integer operands"@))),
        },
        BinaryOp::Equal | BinaryOp::NotEqual => {
            let eq = match (l, r) {
                (ValueV::Integer(a), ValueV::Integer(b)) => Some(Ok(a == b)),
                (ValueV::Float(_), ValueV::Float(_)) => None,
                (ValueV::Bool(a), ValueV::Bool(b)) => Some(Ok(a == b)),
                (ValueV::Str(a), ValueV::Str(b)) => Some(Ok(a == b)),
                _ => Some(Err(LangErrorV::Type("equality comparison requires matching operand types"@))),
            };
            match eq {
                None => None,
                Some(Err(e)) => Some(Err(e)),
                Some(Ok(b)) => Some(Ok(ValueV::Bool(if op == BinaryOp::Equal { b } else { !b }))),
            }
        },
        BinaryOp::Less | BinaryOp::LessEqual | BinaryOp::Greater | BinaryOp::GreaterEqual => match (l, r) {
            (ValueV::Integer(a), ValueV::Integer(b)) => match int_order(op, a as int, b as int) {
                Some(t) => Some(Ok(ValueV::Bool(t))),
                None => None,
            },
            (ValueV::Float(_), ValueV::Float(_)) => None,
            _ => Some(Err(LangErrorV::Type("ordering comparison expects numeric operands"@))),
        },
        BinaryOp::And | BinaryOp::Or => None,
    }
}

/// What a binary operation other than `&&` and `||` gives where [`binary`] leaves the result to
/// float arithmetic: a comparison gives a boolean; a float division gives a float or, for a
/// divisor too close to zero, the division-by-zero error; other float arithmetic gives a float.
/// Never a type error.
pub open spec fn open_binary_outcome(op: BinaryOp, res: Result<ValueV, LangErrorV>) -> bool {
    if op == BinaryOp::Equal || op == BinaryOp::NotEqual || op == BinaryOp::Less || op == BinaryOp::LessEqual
        || op == BinaryOp::Greater || op == BinaryOp::GreaterEqual {
        res matches Ok(ValueV::Bool(_))
    } else if op == BinaryOp::Divide {
        res matches Ok(ValueV::Float(_)) || res == Err::<ValueV, LangErrorV>(LangErrorV::Runtime("division by zero"@))
    } else {
        res matches Ok(ValueV::Float(_))
    }
}

/// What a unary operation gives where [`unary`] leaves the result to float arithmetic: a float.
pub open spec fn open_unary_outcome(res: Result<ValueV, LangErrorV>) -> bool {
    res matches Ok(ValueV::Float(_))
}

/// The variable that an assignment target names.
pub open spec fn target_name(t: TargetV) -> Seq<char> {
    match t {
        TargetV::Name(n) => n,
        TargetV::Indexed { name, indices } => name,
    }
}

/// The names that a statement declares or assigns, those of nested statements included.
pub open spec fn stmt_names(s: StmtV) -> Set<Seq<char>>
    decreases s, 0nat,
{
    match s {
        StmtV::Let { name, ty, mutable, value } => set![name],
        StmtV::Assign { target, kind } => set![target_name(target)],
        StmtV::If(i) => if_names(i),
        StmtV::While { condition, body } => block_names(body, 0),
        _ => Set::empty(),
    }
}

/// [`stmt_names`] of the statements from position `i` on.
pub open spec fn block_names(ss: Seq<StmtV>, i: int) -> Set<Seq<char>>
    decreases ss, ss.len() - i,
{
    if i < 0 || i >= ss.len() {
        Set::empty()
    } else {
        stmt_names(ss[i]).union(block_names(ss, i + 1))
    }
}

/// [`stmt_names`] of an `if` statement: those of both branches.
pub open spec fn if_names(i: IfV) -> Set<Seq<char>>
    decreases i, 0nat,
{
    block_names(i.then_branch, 0).union(match i.else_branch {
        None => Set::empty(),
        Some(b) => match *b {
            ElseV::If(n) => if_names(n),
            ElseV::Block(bl) => block_names(bl, 0),
        },
    })
}

/// Whether `after` holds the same binding as `before`, or none as `before`, for every name outside
/// `names`.
pub open spec fn same_outside(before: Env, after: Env, names: Set<Seq<char>>) -> bool {
    forall|n: Seq<char>| #![trigger after.contains_key(n)] #![trigger after[n]] #![trigger before.contains_key(n)]
        !names.contains(n) ==> (after.contains_key(n) == before.contains_key(n)
            && (before.contains_key(n) ==> after[n] == before[n]))
}

/// Changes confined to `inner` after changes confined to `names` are confined to `names`, when
/// `inner` lies within `names`.
pub proof fn lemma_same_outside_trans(a: Env, b: Env, c: Env, inner: Set<Seq<char>>, names: Set<Seq<char>>)
    requires
        same_outside(a, b, names),
        same_outside(b, c, inner),
        inner.subset_of(names),
    ensures
        same_outside(a, c, names),
{
    assert forall|n: Seq<char>| !names.contains(n) implies (c.contains_key(n) == a.contains_key(n)
        && (a.contains_key(n) ==> c[n] == a[n])) by {
        assert(!inner.contains(n));
        assert(b.contains_key(n) == a.contains_key(n));
        assert(c.contains_key(n) == b.contains_key(n));
        if a.contains_key(n) {
            assert(b[n] == a[n]);
            assert(c[n] == b[n]);
        }
    }
}

/// The names of each statement of a block are among the block's names.
pub proof fn lemma_block_names(ss: Seq<StmtV>, i: int, k: int)
    requires
        0 <= i <= k < ss.len(),
    ensures
        stmt_names(ss[k]).subset_of(block_names(ss, i)),
    decreases k - i,
{
    if i < k {
        lemma_block_names(ss, i + 1, k);
    }
}

/// A unary operation on a value.
pub open spec fn unary(op: UnaryOp, v: ValueV) -> Option<Result<ValueV, LangErrorV>> {
    match op {
        UnaryOp::Negate => match v {
            ValueV::Integer(i) => Some(int_result(-(i as int))),
            ValueV::Float(_) => None,
            _ => Some(Err(LangErrorV::Type("unary `-` is only defined for integers and floats"@))),
        },
        UnaryOp::Not => match v {
            ValueV::Bool(b) => Some(Ok(ValueV::Bool(!b))),
            _ => Some(Err(LangErrorV::Type("unary `!` is only defined for boolean values"@))),
        },
    }
}

/// The value of an expression in the given scope, or its error; `None` where float arithmetic
/// decides.
pub open spec fn eval(env: Env, e: ExprV) -> Option<Result<ValueV, LangErrorV>>
    decreases e, 0nat,
{
    match e {
        ExprV::Literal(lit) => match lit {
            LiteralV::Integer(i) => Some(Ok(ValueV::Integer(i))),
            LiteralV::Float(_) => None,
            LiteralV::Bool(b) => Some(Ok(ValueV::Bool(b))),
            LiteralV::Str(s) => Some(Ok(ValueV::Str(s))),
            LiteralV::Array(els) => match eval_elements(env, els, 0, empty_array()) {
                None => None,
                Some(Err(x)) => Some(Err(x)),
                Some(Ok(a)) => Some(Ok(ValueV::Array(a))),
            },
        },
        ExprV::Variable(name) => Some(current_value(env, name)),
        ExprV::Index { target, index } => match eval(env, *target) {
            None => None,
            Some(Err(x)) => Some(Err(x)),
            Some(Ok(base)) => match base {
                ValueV::Array(a) => match eval(env, *index) {
                    None => None,
                    Some(Err(x)) => Some(Err(x)),
                    Some(Ok(kv)) => match key_of(kv) {
                        Err(x) => Some(Err(x)),
                        Ok(k) => match array_get(a, k) {
                            Some(v) => Some(Ok(v)),
                            None => Some(Err(LangErrorV::Runtime("key "@ + key_text(k) + " not found"@))),
                        },
                    },
                },
                _ => Some(Err(LangErrorV::Runtime("attempt to index a non-array value"@))),
            },
        },
        ExprV::Unary { op, expr } => match eval(env, *expr) {
            None => None,
            Some(Err(x)) => Some(Err(x)),
            Some(Ok(v)) => unary(op, v),
        },
        ExprV::Binary { left, op, right } => if op == BinaryOp::And || op == BinaryOp::Or {
            let sym: Seq<char> = if op == BinaryOp::And { "logical `&&` expects boolean operands"@ } else { "logical `||` expects boolean operands"@ };
            let short = op == BinaryOp::Or;
            match eval(env, *left) {
                None => None,
                Some(Err(x)) => Some(Err(x)),
                Some(Ok(ValueV::Bool(b))) => if b == short {
                    Some(Ok(ValueV::Bool(short)))
                } else {
                    match eval(env, *right) {
                        None => None,
                        Some(Err(x)) => Some(Err(x)),
                        Some(Ok(ValueV::Bool(c))) => Some(Ok(ValueV::Bool(c))),
                        Some(Ok(_)) => Some(Err(LangErrorV::Type(sym))),
                    }
                },
                Some(Ok(_)) => Some(Err(LangErrorV::Type(sym))),
            }
        } else {
            match eval(env, *left) {
                None => None,
                Some(Err(x)) => Some(Err(x)),
                Some(Ok(lv)) => match eval(env, *right) {
                    None => None,
                    Some(Err(x)) => Some(Err(x)),
                    Some(Ok(rv)) => binary(op, lv, rv),
                },
            }
        },
    }
}

/// The array that an array literal's elements build from position `i` on, starting from `acc`:
/// plain elements are appended, `key => value` elements stored under their key.
pub open spec fn eval_elements(env: Env, els: Seq<ElementV>, i: int, acc: ArrayV) -> Option<Result<ArrayV, LangErrorV>>
    decreases els, els.len() - i,
{
    if i < 0 || i >= els.len() {
        Some(Ok(acc))
    } else {
        match els[i] {
            ElementV::Value(e) => match eval(env, e) {
                None => None,
                Some(Err(x)) => Some(Err(x)),
                Some(Ok(v)) => if acc.next_index == i64::MAX {
                    Some(Err(LangErrorV::Runtime(index_overflow_message())))
                } else {
                    eval_elements(env, els, i + 1, array_push(acc, v))
                },
            },
            ElementV::KeyValue { key, value } => match eval(env, key) {
                None => None,
                Some(Err(x)) => Some(Err(x)),
                Some(Ok(kv)) => match key_of(kv) {
                    Err(x) => Some(Err(x)),
                    Ok(k) => match eval(env, value) {
                        None => None,
                        Some(Err(x)) => Some(Err(x)),
                        Some(Ok(v)) => if !insert_fits(acc, k) {
                            Some(Err(LangErrorV::Runtime(index_overflow_message())))
                        } else {
                            eval_elements(env, els, i + 1, array_insert(acc, k, v))
                        },
                    },
                },
            },
        }
    }
}

/// The kinds registered under names.
pub type Registry = Map<Seq<char>, TypeKind>;

/// The kind that a written type denotes. `arr` takes up to two generic arguments (value, or key
/// and value; further ones are ignored) that default to `mixed`; every other name must be
/// registered and takes none.
pub open spec fn resolve_kind(reg: Registry, ann: TypeV) -> Result<TypeKind, LangErrorV>
    decreases ann,
{
    let gs = ann.generics;
    if ann.name == "arr"@ {
        let mixed = TypeKind::Primitive(PrimitiveType::Mixed);
        if gs.len() == 0 {
            Ok(TypeKind::Array(Box::new(ArrayType { key: mixed, value: mixed })))
        } else if gs.len() == 1 {
            match resolve_kind(reg, gs[0]) {
                Err(e) => Err(e),
                Ok(v) => Ok(TypeKind::Array(Box::new(ArrayType { key: mixed, value: v }))),
            }
        } else {
            match resolve_kind(reg, gs[0]) {
                Err(e) => Err(e),
                Ok(k) => match resolve_kind(reg, gs[1]) {
                    Err(e) => Err(e),
                    Ok(v) => Ok(TypeKind::Array(Box::new(ArrayType { key: k, value: v }))),
                },
            }
        }
    } else if gs.len() != 0 {
        Err(LangErrorV::Type("type `"@ + ann.name + "` does not accept generic arguments"@))
    } else if reg.contains_key(ann.name) {
        Ok(reg[ann.name])
    } else {
        Err(LangErrorV::UnknownType(ann.name))
    }
}

/// The type of a declaration with the given annotation: `mixed` when there is none.
pub open spec fn resolve_annotation(reg: Registry, ann: Option<TypeV>) -> Result<TypeKind, LangErrorV> {
    match ann {
        None => Ok(TypeKind::Primitive(PrimitiveType::Mixed)),
        Some(a) => resolve_kind(reg, a),
    }
}

/// What a statement run leaves: the scope, the values echoed, and how control left it (or the
/// error that stopped it).
pub struct Run {
    pub env: Env,
    pub out: Seq<ValueV>,
    pub flow: Result<Flow, LangErrorV>,
}

/// A run that echoed nothing.
pub open spec fn quiet(env: Env, flow: Result<Flow, LangErrorV>) -> Run {
    Run { env, out: Seq::empty(), flow }
}

/// A run that changed the scope as `r` says, or stopped with its error.
pub open spec fn scope_step(env: Env, r: Result<Env, LangErrorV>) -> Run {
    match r {
        Ok(e) => quiet(e, Ok(Flow::Normal)),
        Err(x) => quiet(env, Err(x)),
    }
}

/// A run that echoed `out` before going on as `r`.
pub open spec fn after(out: Seq<ValueV>, r: Option<Run>) -> Option<Run> {
    match r {
        None => None,
        Some(r) => Some(Run { env: r.env, out: out + r.out, flow: r.flow }),
    }
}

/// The message of a condition that is not a boolean.
pub open spec fn condition_message(what: Seq<char>) -> Seq<char> {
    what + " condition must be boolean: "@ + lang_error_text(LangErrorV::Type("expected bool value"@))
}

/// The value that `++` or `--` gives.
pub open spec fn step_value(op: IncrementOp, v: ValueV) -> Option<Result<ValueV, LangErrorV>> {
    match v {
        ValueV::Integer(i) => Some(int_result(if op == IncrementOp::Increment { i + 1 } else { i - 1 })),
        ValueV::Float(_) => None,
        _ => Some(Err(LangErrorV::Type(
            "`"@ + (if op == IncrementOp::Increment { "++"@ } else { "--"@ }) + "` can only be applied to numeric values"@,
        ))),
    }
}

/// What assigning to a variable by name gives.
pub open spec fn assign_name(env: Env, name: Seq<char>, kind: KindV) -> Option<Result<Env, LangErrorV>> {
    match kind {
        KindV::Simple(e) => match eval(env, e) {
            None => None,
            Some(Err(x)) => Some(Err(x)),
            Some(Ok(v)) => Some(scope_assign(KindCheck::ArraysByDeclaration, env, name, v)),
        },
        KindV::Compound { op, expr } => match eval(env, expr) {
            None => None,
            Some(Err(x)) => Some(Err(x)),
            Some(Ok(rhs)) => match current_value(env, name) {
                Err(x) => Some(Err(x)),
                Ok(lhs) => match binary(op, lhs, rhs) {
                    None => None,
                    Some(Err(x)) => Some(Err(x)),
                    Some(Ok(v)) => Some(scope_assign(KindCheck::ArraysByDeclaration, env, name, v)),
                },
            },
        },
        KindV::Increment(op) => match current_value(env, name) {
            Err(x) => Some(Err(x)),
            Ok(cur) => match step_value(op, cur) {
                None => None,
                Some(Err(x)) => Some(Err(x)),
                Some(Ok(v)) => Some(scope_assign(KindCheck::ArraysByDeclaration, env, name, v)),
            },
        },
    }
}

/// The indices of an assignment target from position `i` on, evaluated in order after `acc`.
pub open spec fn resolve_indices(env: Env, idx: Seq<IndexTargetV>, i: int, acc: Seq<IndexV>) -> Option<Result<Seq<IndexV>, LangErrorV>>
    decreases idx.len() - i,
{
    if i < 0 || i >= idx.len() {
        Some(Ok(acc))
    } else {
        match idx[i] {
            IndexTargetV::Append => resolve_indices(env, idx, i + 1, acc.push(IndexV::Append)),
            IndexTargetV::Index(e) => match eval(env, e) {
                None => None,
                Some(Err(x)) => Some(Err(x)),
                Some(Ok(kv)) => match key_of(kv) {
                    Err(x) => Some(Err(x)),
                    Ok(k) => resolve_indices(env, idx, i + 1, acc.push(IndexV::Key(k))),
                },
            },
        }
    }
}

/// The array type of the arrays stored in an array of type `at`.
pub open spec fn element_array_type(at: ArrayType) -> Result<ArrayType, LangErrorV> {
    match at.value {
        TypeKind::Array(inner) => Ok(*inner),
        TypeKind::Primitive(PrimitiveType::Mixed) => Ok(ArrayType {
            key: TypeKind::Primitive(PrimitiveType::Mixed),
            value: TypeKind::Primitive(PrimitiveType::Mixed),
        }),
        other => Err(LangErrorV::Type("cannot index into value of type "@ + kind_text(other))),
    }
}

/// Stores `v` in `a` at the place that the chain of indices from position `i` on names: `[]`
/// appends (only as the last index), a key stores under it, and a key followed by more indices
/// descends into the array stored there.
pub open spec fn assign_into(at: ArrayType, a: ArrayV, idx: Seq<IndexV>, i: int, v: ValueV) -> Result<ArrayV, LangErrorV>
    decreases idx.len() - i,
{
    if i < 0 || i >= idx.len() {
        Err(LangErrorV::Runtime("missing index for array assignment"@))
    } else {
        match idx[i] {
            IndexV::Append => if i + 1 != idx.len() {
                Err(LangErrorV::Runtime("`[]` append syntax can only appear at the end of the index chain"@))
            } else if a.next_index == i64::MAX {
                Err(LangErrorV::Runtime(index_overflow_message()))
            } else {
                Ok(array_push(a, v))
            },
            IndexV::Key(k) => if i + 1 == idx.len() {
                if insert_fits(a, k) {
                    Ok(array_insert(a, k, v))
                } else {
                    Err(LangErrorV::Runtime(index_overflow_message()))
                }
            } else {
                let p = key_index(a.entries, k);
                if p < 0 {
                    Err(LangErrorV::Runtime("key "@ + key_text(k) + " does not exist for assignment"@))
                } else {
                    match a.entries[p].1 {
                        ValueV::Array(inner) => match element_array_type(at) {
                            Err(x) => Err(x),
                            Ok(next) => match assign_into(next, inner, idx, i + 1, v) {
                                Err(x) => Err(x),
                                Ok(updated) => Ok(ArrayV {
                                    entries: a.entries.update(p, (k, ValueV::Array(updated))),
                                    next_index: a.next_index,
                                }),
                            },
                        },
                        _ => Err(LangErrorV::Runtime("cannot index into non-array value"@)),
                    }
                }
            },
        }
    }
}

/// What assigning through a chain of indices gives.
pub open spec fn assign_index(env: Env, name: Seq<char>, idx: Seq<IndexTargetV>, kind: KindV) -> Option<Result<Env, LangErrorV>> {
    match kind {
        KindV::Simple(e) => match eval(env, e) {
            None => None,
            Some(Err(x)) => Some(Err(x)),
            Some(Ok(v)) => match resolve_indices(env, idx, 0, Seq::empty()) {
                None => None,
                Some(Err(x)) => Some(Err(x)),
                Some(Ok(keys)) => if !env.contains_key(name) {
                    Some(Err(LangErrorV::Runtime(not_defined(name))))
                } else {
                    match current_value(env, name) {
                        Err(x) => Some(Err(x)),
                        Ok(cur) => match env[name].ty.kind {
                            TypeKind::Array(at) => match cur {
                                ValueV::Array(a) => match assign_into(*at, a, keys, 0, v) {
                                    Err(x) => Some(Err(x)),
                                    Ok(updated) => Some(scope_assign(KindCheck::ArraysByDeclaration, env, name, ValueV::Array(updated))),
                                },
                                _ => Some(Err(LangErrorV::Runtime("attempt to index into uninitialized array"@))),
                            },
                            _ => Some(Err(LangErrorV::Type("attempt to index into non-array binding"@))),
                        },
                    }
                }
            },
        },
        _ => Some(Err(LangErrorV::Type("only simple assignments are supported for indexed targets"@))),
    }
}

/// What an assignment statement gives.
pub open spec fn assign(env: Env, target: TargetV, kind: KindV) -> Option<Result<Env, LangErrorV>> {
    match target {
        TargetV::Name(name) => assign_name(env, name, kind),
        TargetV::Indexed { name, indices } => assign_index(env, name, indices, kind),
    }
}

/// What a declaration gives: its type is resolved first, then its initial value evaluated.
pub open spec fn declare(reg: Registry, env: Env, name: Seq<char>, ann: Option<TypeV>, mutable: bool, value: Option<ExprV>) -> Option<Result<Env, LangErrorV>> {
    match resolve_annotation(reg, ann) {
        Err(x) => Some(Err(x)),
        Ok(kind) => {
            let ty = LangType { kind, mutable };
            match value {
                None => Some(scope_declare(env, name, ty)),
                Some(e) => match eval(env, e) {
                    None => None,
                    Some(Err(x)) => Some(Err(x)),
                    Some(Ok(v)) => Some(scope_declare_with_value(KindCheck::ArraysByDeclaration, env, name, ty, v)),
                },
            }
        },
    }
}

/// A run that changes the scope as `r` says.
pub open spec fn scope_run(env: Env, r: Option<Result<Env, LangErrorV>>) -> Option<Run> {
    match r {
        None => None,
        Some(r) => Some(scope_step(env, r)),
    }
}

/// Running a statement.
pub open spec fn run_stmt(reg: Registry, env: Env, s: StmtV) -> Option<Run>
    decreases s, loop_budget() + 1,
{
    match s {
        StmtV::Let { name, ty, mutable, value } => scope_run(env, declare(reg, env, name, ty, mutable, value)),
        StmtV::Assign { target, kind } => scope_run(env, assign(env, target, kind)),
        StmtV::Echo(e) => match eval(env, e) {
            None => None,
            Some(Err(x)) => Some(quiet(env, Err(x))),
            Some(Ok(v)) => Some(Run { env, out: seq![v], flow: Ok(Flow::Normal) }),
        },
        StmtV::If(i) => run_if(reg, env, i),
        StmtV::While { condition, body } => run_while(reg, env, s, loop_budget()),
        StmtV::Break => Some(quiet(env, Ok(Flow::Break))),
        StmtV::Continue => Some(quiet(env, Ok(Flow::Continue))),
    }
}

/// Running the statements of a block from position `i` on, stopping at the first that does not
/// finish normally.
pub open spec fn run_block(reg: Registry, env: Env, stmts: Seq<StmtV>, i: int) -> Option<Run>
    decreases stmts, stmts.len() - i,
{
    if i < 0 || i >= stmts.len() {
        Some(quiet(env, Ok(Flow::Normal)))
    } else {
        match run_stmt(reg, env, stmts[i]) {
            None => None,
            Some(r) => if r.flow == Ok::<Flow, LangErrorV>(Flow::Normal) {
                after(r.out, run_block(reg, r.env, stmts, i + 1))
            } else {
                Some(r)
            },
        }
    }
}

/// Running an `if` statement.
pub open spec fn run_if(reg: Registry, env: Env, i: IfV) -> Option<Run>
    decreases i, 0nat,
{
    match eval(env, i.condition) {
        None => None,
        Some(Err(x)) => Some(quiet(env, Err(x))),
        Some(Ok(ValueV::Bool(true))) => run_block(reg, env, i.then_branch, 0),
        Some(Ok(ValueV::Bool(false))) => match i.else_branch {
            None => Some(quiet(env, Ok(Flow::Normal))),
            Some(b) => match *b {
                ElseV::If(nested) => run_if(reg, env, nested),
                ElseV::Block(block) => run_block(reg, env, block, 0),
            },
        },
        Some(Ok(_)) => Some(quiet(env, Err(LangErrorV::Type(condition_message("if"@))))),
    }
}

/// Running a `while` statement `w` with `fuel` iterations left before the budget runs out.
/// `break` ends the loop normally, `continue` goes on with the next iteration.
pub open spec fn run_while(reg: Registry, env: Env, w: StmtV, fuel: nat) -> Option<Run>
    decreases w, fuel,
{
    match w {
        StmtV::While { condition, body } => match eval(env, condition) {
            None => None,
            Some(Err(x)) => Some(quiet(env, Err(x))),
            Some(Ok(ValueV::Bool(false))) => Some(quiet(env, Ok(Flow::Normal))),
            Some(Ok(ValueV::Bool(true))) => if fuel == 0 {
                Some(quiet(env, Err(LangErrorV::Runtime(budget_message()))))
            } else {
                match run_block(reg, env, body, 0) {
                    None => None,
                    Some(r) => match r.flow {
                        Err(x) => Some(r),
                        Ok(Flow::Break) => Some(Run { env: r.env, out: r.out, flow: Ok(Flow::Normal) }),
                        Ok(_) => after(r.out, run_while(reg, r.env, w, (fuel - 1) as nat)),
                    },
                }
            },
            Some(Ok(_)) => Some(quiet(env, Err(LangErrorV::Type(condition_message("while"@))))),
        },
        _ => Some(quiet(env, Ok(Flow::Normal))),
    }
}

/// Whether a statement and every statement nested in it uses only the compound assignments that
/// can be evaluated: never one with `&&` or `||`.
pub open spec fn stmt_ok(s: StmtV) -> bool
    decreases s, 0nat,
{
    match s {
        StmtV::Assign { target, kind } => match kind {
            KindV::Compound { op, expr } => op != BinaryOp::And && op != BinaryOp::Or,
            _ => true,
        },
        StmtV::If(i) => if_ok(i),
        StmtV::While { condition, body } => block_ok(body, 0),
        _ => true,
    }
}

/// [`stmt_ok`] for the statements of a block from position `i` on.
pub open spec fn block_ok(stmts: Seq<StmtV>, i: int) -> bool
    decreases stmts, stmts.len() - i,
{
    if i < 0 || i >= stmts.len() {
        true
    } else {
        stmt_ok(stmts[i]) && block_ok(stmts, i + 1)
    }
}

/// [`stmt_ok`] for an `if` statement.
pub open spec fn if_ok(i: IfV) -> bool
    decreases i, 0nat,
{
    block_ok(i.then_branch, 0) && match i.else_branch {
        None => true,
        Some(b) => match *b {
            ElseV::If(nested) => if_ok(nested),
            ElseV::Block(block) => block_ok(block, 0),
        },
    }
}

/// The views of a list of values.
pub open spec fn values_view(vs: Seq<Value>) -> Seq<ValueV> {
    vs.map_values(|v: Value| v@)
}

/// The view of a value or error.
pub open spec fn value_result(r: Result<Value, LangError>) -> Result<ValueV, LangErrorV> {
    match r {
        Ok(v) => Ok(v@),
        Err(e) => Err(e@),
    }
}

/// The view of a control-flow outcome or error.
pub open spec fn flow_result(r: Result<Flow, LangError>) -> Result<Flow, LangErrorV> {
    match r {
        Ok(f) => Ok(f),
        Err(e) => Err(e@),
    }
}

/// Executing one statement at the top level: the scope it leaves, and the values it echoed or
/// the error it stopped with. `break` and `continue` outside a loop are errors.
pub open spec fn execution(reg: Registry, env: Env, s: StmtV) -> Option<(Env, Result<Seq<ValueV>, LangErrorV>)> {
    match run_stmt(reg, env, s) {
        None => None,
        Some(r) => Some((r.env, match r.flow {
            Ok(Flow::Normal) => Ok(r.out),
            Ok(Flow::Break) => Err(LangErrorV::Runtime("`break` outside of loop"@)),
            Ok(Flow::Continue) => Err(LangErrorV::Runtime("`continue` outside of loop"@)),
            Err(x) => Err(x),
        })),
    }
}

/// A well-formed statement uses no compound assignment with `&&` or `||`.
pub proof fn lemma_wf_stmt_ok(s: StmtV)
    requires
        stmt_wf(s),
    ensures
        stmt_ok(s),
    decreases s, 0nat,
{
    match s {
        StmtV::If(i) => {
            lemma_wf_if_ok(i);
        },
        StmtV::While { condition, body } => {
            lemma_wf_block_ok(body, 0);
        },
        _ => {},
    }
}

/// [`lemma_wf_stmt_ok`] for the statements of a block from position `i` on.
pub proof fn lemma_wf_block_ok(ss: Seq<StmtV>, i: int)
    requires
        stmts_wf(ss, i),
    ensures
        block_ok(ss, i),
    decreases ss, ss.len() - i,
{
    if 0 <= i < ss.len() {
        lemma_wf_stmt_ok(ss[i]);
        lemma_wf_block_ok(ss, i + 1);
    }
}

/// [`lemma_wf_stmt_ok`] for an `if` statement.
pub proof fn lemma_wf_if_ok(x: IfV)
    requires
        if_wf(x),
    ensures
        if_ok(x),
    decreases x, 0nat,
{
    lemma_wf_block_ok(x.then_branch, 0);
    match x.else_branch {
        None => {},
        Some(b) => match *b {
            ElseV::If(n) => {
                lemma_wf_if_ok(n);
            },
            ElseV::Block(bl) => {
                lemma_wf_block_ok(bl, 0);
            },
        },
    }
}

/// Declaring a fresh variable with a type that takes the initial value, then reading the
/// variable, gives that value.
pub proof fn law_declare_then_read(reg: Registry, env: Env, name: Seq<char>, ty: TypeV, mutable: bool, e: ExprV, v: ValueV)
    requires
        !env.contains_key(name),
        eval(env, e) == Some(Ok::<ValueV, LangErrorV>(v)),
        resolve_kind(reg, ty) matches Ok(k) && kind_accepts(KindCheck::ArraysByDeclaration, k, v),
    ensures
        run_stmt(reg, env, StmtV::Let { name, ty: Some(ty), mutable, value: Some(e) }) matches Some(r)
            && r.flow == Ok::<Flow, LangErrorV>(Flow::Normal) && r.out.len() == 0
            && eval(r.env, ExprV::Variable(name)) == Some(Ok::<ValueV, LangErrorV>(v)),
{
}

/// A declaration without a type has the type `mixed`, which takes no value: with an initial
/// value it is the type error naming both kinds, and the scope stays as it was.
pub proof fn law_untyped_declaration_refuses_value(reg: Registry, env: Env, name: Seq<char>, mutable: bool, e: ExprV, v: ValueV)
    requires
        !env.contains_key(name),
        eval(env, e) == Some(Ok::<ValueV, LangErrorV>(v)),
    ensures
        run_stmt(reg, env, StmtV::Let { name, ty: None, mutable, value: Some(e) }) == Some(quiet(
            env,
            Err(LangErrorV::Type(crate::scope::mismatch_message(TypeKind::Primitive(PrimitiveType::Mixed), v))),
        )),
{
}

/// Assigning to a mutable variable a value that its type takes, then reading the variable,
/// gives that value; the variable keeps its type.
pub proof fn law_assign_then_read(env: Env, name: Seq<char>, e: ExprV, v: ValueV)
    requires
        env.contains_key(name),
        env[name].ty.mutable,
        kind_accepts(KindCheck::ArraysByDeclaration, env[name].ty.kind, v),
        eval(env, e) == Some(Ok::<ValueV, LangErrorV>(v)),
    ensures
        assign(env, TargetV::Name(name), KindV::Simple(e)) matches Some(Ok(after))
            && eval(after, ExprV::Variable(name)) == Some(Ok::<ValueV, LangErrorV>(v))
            && after[name].ty == env[name].ty,
{
}

/// An immutable variable that holds a value refuses every assignment of a value that its type
/// takes, and the scope stays as it was.
pub proof fn law_immutable_refuses_assignment(reg: Registry, env: Env, name: Seq<char>, e: ExprV, v: ValueV)
    requires
        env.contains_key(name),
        !env[name].ty.mutable,
        env[name].value is Some,
        kind_accepts(KindCheck::ArraysByDeclaration, env[name].ty.kind, v),
        eval(env, e) == Some(Ok::<ValueV, LangErrorV>(v)),
    ensures
        run_stmt(reg, env, StmtV::Assign { target: TargetV::Name(name), kind: KindV::Simple(e) }) == Some(quiet(
            env,
            Err(LangErrorV::Type("attempt to reassign immutable binding"@)),
        )),
{
}

/// Reading a variable that is not declared is the runtime error naming it.
pub proof fn law_undeclared_read_fails(env: Env, name: Seq<char>)
    requires
        !env.contains_key(name),
    ensures
        eval(env, ExprV::Variable(name)) == Some(Err::<ValueV, LangErrorV>(LangErrorV::Runtime(not_defined(name)))),
{
}

/// A loop whose condition is false runs no iteration: it finishes normally, echoes nothing and
/// leaves the scope as it was.
pub proof fn law_false_loop_does_nothing(reg: Registry, env: Env, condition: ExprV, body: Seq<StmtV>)
    requires
        eval(env, condition) == Some(Ok::<ValueV, LangErrorV>(ValueV::Bool(false))),
    ensures
        run_stmt(reg, env, StmtV::While { condition, body }) == Some(quiet(env, Ok(Flow::Normal))),
{
}

/// A loop whose body starts with `break` and whose condition holds runs its first iteration
/// up to the `break` and then finishes normally.
pub proof fn law_break_ends_loop(reg: Registry, env: Env, condition: ExprV, body: Seq<StmtV>)
    requires
        eval(env, condition) == Some(Ok::<ValueV, LangErrorV>(ValueV::Bool(true))),
        body.len() > 0,
        body[0] == StmtV::Break,
    ensures
        run_stmt(reg, env, StmtV::While { condition, body }) == Some(quiet(env, Ok(Flow::Normal))),
{
    assert(run_stmt(reg, env, body[0]) == Some(quiet(env, Ok(Flow::Break))));
    assert(run_block(reg, env, body, 0) == Some(quiet(env, Ok(Flow::Break))));
}

} // verus!
