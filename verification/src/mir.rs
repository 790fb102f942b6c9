//! The typed intermediate form that native code generation works from, and the lowering of
//! programs into it. Only integer and boolean variables, with explicit types, can be lowered.
use vstd::prelude::*;
use crate::ast::{
    Assignment, AssignmentKind, AssignmentTarget, BinaryOp, ElseBranch, Expr, IfStatement, IncrementOp, Literal,
    Statement, TypeAnnotation, UnaryOp, VarDeclaration, WhileStatement,
};
use crate::diagnostics::{LangError, LangErrorV};
use crate::lexer::{ascii_lowercase, lower};
use crate::text::{owned, push_str, str_eq};

verus! {

/// The identifier of a lowered variable: its position in the program's variable list.
#[derive(Debug, Clone, Copy, PartialEq, Eq, Structural, Hash)]
pub struct VarId(pub usize);

/// The types that the intermediate form knows.
#[derive(Debug, Clone, Copy, PartialEq, Eq, Structural, Hash)]
pub enum MirType {
    Int,
    Bool,
}

/// How a type is written in messages.
pub open spec fn mir_type_name(t: MirType) -> Seq<char> {
    match t {
        MirType::Int => "Int"@,
        MirType::Bool => "Bool"@,
    }
}

/// The message of a type mismatch between `expected` and `got`.
pub open spec fn mismatch(expected: MirType, got: MirType, context: Seq<char>) -> Seq<char> {
    "type mismatch: expected "@ + mir_type_name(expected) + ", got "@ + mir_type_name(got) + " while lowering "@ + context
}

/// Success when the two types agree, a type error otherwise.
pub open spec fn expect_spec(t: MirType, other: MirType, context: Seq<char>) -> Result<(), LangErrorV> {
    if t == other {
        Ok(())
    } else {
        Err(LangErrorV::Type(mismatch(t, other, context)))
    }
}

fn mir_type_text(t: MirType) -> (r: &'static str)
    ensures
        r@ == mir_type_name(t),
{
    match t {
        MirType::Int => "Int",
        MirType::Bool => "Bool",
    }
}

impl MirType {
    /// Success when `other` is this type, a type error naming both otherwise.
    pub fn expect(&self, other: MirType, context: &str) -> (r: Result<(), LangError>)
        ensures
            match expect_spec(*self, other, context@) {
                Ok(()) => r is Ok,
                Err(e) => r matches Err(f) && f@ == e,
            },
    {
        if *self != other {
            let mut msg = owned("type mismatch: expected ");
            push_str(&mut msg, mir_type_text(*self));
            push_str(&mut msg, ", got ");
            push_str(&mut msg, mir_type_text(other));
            push_str(&mut msg, " while lowering ");
            push_str(&mut msg, context);
            Err(LangError::Type(msg))
        } else {
            Ok(())
        }
    }
}

/// A declared variable.
#[derive(Debug)]
pub struct MirVariable {
    pub name: String,
    pub ty: MirType,
    pub mutable: bool,
}

/// The mathematical content of a [`MirVariable`].
pub struct VarV {
    pub name: Seq<char>,
    pub ty: MirType,
    pub mutable: bool,
}

impl View for MirVariable {
    type V = VarV;

    open spec fn view(&self) -> VarV {
        VarV { name: self.name@, ty: self.ty, mutable: self.mutable }
    }
}

/// The views of a list of variables.
pub open spec fn vars_view(vs: Seq<MirVariable>) -> Seq<VarV> {
    vs.map_values(|v: MirVariable| v@)
}

/// A lowered program: its variables, and its statements.
#[derive(Debug)]
pub struct MirProgram {
    pub variables: Vec<MirVariable>,
    pub body: Vec<MirStatement>,
}

/// A statement of the intermediate form.
#[derive(Debug)]
pub enum MirStatement {
    Let { var: VarId, init: Option<MirExpr> },
    Assign { var: VarId, value: MirExpr },
    Echo(MirExpr),
    If { cond: MirExpr, then_body: Vec<MirStatement>, else_body: Vec<MirStatement> },
    While { cond: MirExpr, body: Vec<MirStatement> },
    Break,
    Continue,
}

/// The mathematical content of a [`MirStatement`].
pub enum MirStmtV {
    Let { var: VarId, init: Option<MirExpr> },
    Assign { var: VarId, value: MirExpr },
    Echo(MirExpr),
    If { cond: MirExpr, then_body: Seq<MirStmtV>, else_body: Seq<MirStmtV> },
    While { cond: MirExpr, body: Seq<MirStmtV> },
    Break,
    Continue,
}

impl View for MirStatement {
    type V = MirStmtV;

    open spec fn view(&self) -> MirStmtV
        decreases self,
    {
        match self {
            MirStatement::Let { var, init } => MirStmtV::Let { var: *var, init: *init },
            MirStatement::Assign { var, value } => MirStmtV::Assign { var: *var, value: *value },
            MirStatement::Echo(e) => MirStmtV::Echo(*e),
            MirStatement::If { cond, then_body, else_body } => MirStmtV::If {
                cond: *cond,
                then_body: stmts_view(then_body@),
                else_body: stmts_view(else_body@),
            },
            MirStatement::While { cond, body } => MirStmtV::While { cond: *cond, body: stmts_view(body@) },
            MirStatement::Break => MirStmtV::Break,
            MirStatement::Continue => MirStmtV::Continue,
        }
    }
}

/// The views of a list of statements.
pub open spec fn stmts_view(ss: Seq<MirStatement>) -> Seq<MirStmtV>
    decreases ss,
{
    if ss.len() == 0 {
        Seq::empty()
    } else {
        stmts_view(ss.drop_last()).push(ss.last().view())
    }
}

/// The views of `ss` are the views of its statements.
pub proof fn lemma_stmts_view(ss: Seq<MirStatement>)
    ensures
        stmts_view(ss).len() == ss.len(),
        forall|i: int| 0 <= i < ss.len() ==> #[trigger] stmts_view(ss)[i] == ss[i]@,
    decreases ss.len(),
{
    if ss.len() > 0 {
        lemma_stmts_view(ss.drop_last());
        assert(stmts_view(ss) == stmts_view(ss.drop_last()).push(ss.last()@));
        assert forall|i: int| 0 <= i < ss.len() implies #[trigger] stmts_view(ss)[i] == ss[i]@ by {
            if i < ss.len() - 1 {
                assert(ss.drop_last()[i] == ss[i]);
            }
        }
    }
}

/// A typed expression.
#[derive(Debug)]
pub struct MirExpr {
    pub ty: MirType,
    pub kind: MirExprKind,
}

/// Unary operations.
#[derive(Debug, Clone, Copy, PartialEq, Eq, Structural)]
pub enum MirUnaryOp {
    Negate,
    Not,
}

/// Binary operations.
#[derive(Debug, Clone, Copy, PartialEq, Eq, Structural)]
pub enum MirBinaryOp {
    Add,
    Subtract,
    Multiply,
    Divide,
    Modulo,
    Equal,
    NotEqual,
    Less,
    LessEqual,
    Greater,
    GreaterEqual,
    And,
    Or,
}

/// The shapes of expressions.
#[derive(Debug)]
pub enum MirExprKind {
    Int(i64),
    Bool(bool),
    Var(VarId),
    Unary { op: MirUnaryOp, expr: Box<MirExpr> },
    Binary { op: MirBinaryOp, left: Box<MirExpr>, right: Box<MirExpr> },
}

impl MirExpr {
    /// An expression of type `ty` and shape `kind`.
    pub fn new(ty: MirType, kind: MirExprKind) -> (r: MirExpr)
        ensures
            r == (MirExpr { ty, kind }),
    {
        MirExpr { ty, kind }
    }

    /// A boolean constant.
    pub fn boolean(value: bool) -> (r: MirExpr)
        ensures
            r == (MirExpr { ty: MirType::Bool, kind: MirExprKind::Bool(value) }),
    {
        MirExpr::new(MirType::Bool, MirExprKind::Bool(value))
    }

    /// An integer constant.
    pub fn integer(value: i64) -> (r: MirExpr)
        ensures
            r == (MirExpr { ty: MirType::Int, kind: MirExprKind::Int(value) }),
    {
        MirExpr::new(MirType::Int, MirExprKind::Int(value))
    }

    /// A variable of type `ty`.
    pub fn variable(var: VarId, ty: MirType) -> (r: MirExpr)
        ensures
            r == (MirExpr { ty, kind: MirExprKind::Var(var) }),
    {
        MirExpr::new(ty, MirExprKind::Var(var))
    }

    /// A unary operation of result type `ty`.
    pub fn unary(ty: MirType, op: MirUnaryOp, expr: MirExpr) -> (r: MirExpr)
        ensures
            r == (MirExpr { ty, kind: MirExprKind::Unary { op, expr: Box::new(expr) } }),
    {
        MirExpr::new(ty, MirExprKind::Unary { op, expr: Box::new(expr) })
    }

    /// A binary operation of result type `ty`.
    pub fn binary(op: MirBinaryOp, left: MirExpr, right: MirExpr, ty: MirType) -> (r: MirExpr)
        ensures
            r == (MirExpr { ty, kind: MirExprKind::Binary { op, left: Box::new(left), right: Box::new(right) } }),
    {
        MirExpr::new(ty, MirExprKind::Binary { op, left: Box::new(left), right: Box::new(right) })
    }
}

/// What lowering has gathered so far: the variables declared, and whether it is inside a loop.
pub struct LowerState {
    pub vars: Seq<VarV>,
    pub in_loop: bool,
}

/// The position of the first variable at or after `i` named `name`, or -1.
pub open spec fn var_index_from(vars: Seq<VarV>, name: Seq<char>, i: int) -> int
    decreases vars.len() - i,
{
    if i < 0 || i >= vars.len() {
        -1
    } else if vars[i].name == name {
        i
    } else {
        var_index_from(vars, name, i + 1)
    }
}

/// The variable named `name`.
pub open spec fn lookup(vars: Seq<VarV>, name: Seq<char>) -> Result<VarId, LangErrorV> {
    let i = var_index_from(vars, name, 0);
    if i < 0 {
        Err(LangErrorV::Runtime("variable `"@ + name + "` referenced before declaration"@))
    } else {
        Ok(VarId(i as usize))
    }
}

/// The type that a declaration names: `int` or `bool`, in any case, without generic arguments.
pub open spec fn resolve_mir_type(ann: Option<TypeAnnotation>) -> Result<MirType, LangErrorV> {
    match ann {
        None => Err(LangErrorV::Runtime("explicit type annotation required for native compilation"@)),
        Some(a) => if a.generics@.len() != 0 {
            Err(LangErrorV::Runtime("generic type annotations are not yet supported by native backend"@))
        } else if lower(a.name@) == "int"@ {
            Ok(MirType::Int)
        } else if lower(a.name@) == "bool"@ {
            Ok(MirType::Bool)
        } else {
            Err(LangErrorV::Runtime("native backend does not support type `"@ + lower(a.name@) + "`"@))
        },
    }
}

/// The operation of the intermediate form that a binary operator becomes.
pub open spec fn mir_op(op: BinaryOp) -> MirBinaryOp {
    match op {
        BinaryOp::Add => MirBinaryOp::Add,
        BinaryOp::Subtract => MirBinaryOp::Subtract,
        BinaryOp::Multiply => MirBinaryOp::Multiply,
        BinaryOp::Divide => MirBinaryOp::Divide,
        BinaryOp::Modulo => MirBinaryOp::Modulo,
        BinaryOp::Equal => MirBinaryOp::Equal,
        BinaryOp::NotEqual => MirBinaryOp::NotEqual,
        BinaryOp::Less => MirBinaryOp::Less,
        BinaryOp::LessEqual => MirBinaryOp::LessEqual,
        BinaryOp::Greater => MirBinaryOp::Greater,
        BinaryOp::GreaterEqual => MirBinaryOp::GreaterEqual,
        BinaryOp::And => MirBinaryOp::And,
        BinaryOp::Or => MirBinaryOp::Or,
    }
}

/// Whether an operation is integer arithmetic.
pub open spec fn is_arithmetic(op: MirBinaryOp) -> bool {
    op == MirBinaryOp::Add || op == MirBinaryOp::Subtract || op == MirBinaryOp::Multiply
        || op == MirBinaryOp::Divide || op == MirBinaryOp::Modulo
}

/// Whether an operation is an ordering comparison.
pub open spec fn is_ordering(op: MirBinaryOp) -> bool {
    op == MirBinaryOp::Less || op == MirBinaryOp::LessEqual || op == MirBinaryOp::Greater
        || op == MirBinaryOp::GreaterEqual
}

/// The type of a binary operation on operands of types `l` and `r`: arithmetic and ordering
/// take integers, `&&` and `||` booleans, equality two operands of one type.
pub open spec fn binary_type(op: MirBinaryOp, l: MirType, r: MirType) -> Result<MirType, LangErrorV> {
    if is_arithmetic(op) {
        match expect_spec(l, MirType::Int, "binary operation left operand"@) {
            Err(e) => Err(e),
            Ok(()) => match expect_spec(r, MirType::Int, "binary operation right operand"@) {
                Err(e) => Err(e),
                Ok(()) => Ok(MirType::Int),
            },
        }
    } else if op == MirBinaryOp::Equal || op == MirBinaryOp::NotEqual {
        if l != r {
            Err(LangErrorV::Type("equality comparison requires matching operand types"@))
        } else {
            Ok(MirType::Bool)
        }
    } else if is_ordering(op) {
        match expect_spec(l, MirType::Int, "comparison left operand"@) {
            Err(e) => Err(e),
            Ok(()) => match expect_spec(r, MirType::Int, "comparison right operand"@) {
                Err(e) => Err(e),
                Ok(()) => Ok(MirType::Bool),
            },
        }
    } else {
        match expect_spec(l, MirType::Bool, "logical operand"@) {
            Err(e) => Err(e),
            Ok(()) => match expect_spec(r, MirType::Bool, "logical operand"@) {
                Err(e) => Err(e),
                Ok(()) => Ok(MirType::Bool),
            },
        }
    }
}

/// The lowered form of an expression.
pub open spec fn lower_expr_spec(vars: Seq<VarV>, e: Expr) -> Result<MirExpr, LangErrorV>
    decreases e,
{
    match e {
        Expr::Literal(lit) => match lit {
            Literal::Integer(v) => Ok(MirExpr { ty: MirType::Int, kind: MirExprKind::Int(v) }),
            Literal::Bool(v) => Ok(MirExpr { ty: MirType::Bool, kind: MirExprKind::Bool(v) }),
            Literal::Float(_) => Err(LangErrorV::Runtime("native code generation does not yet support floating point literals"@)),
            Literal::Str(_) => Err(LangErrorV::Runtime("native code generation does not yet support string literals"@)),
            Literal::Array(_) => Err(LangErrorV::Runtime("native code generation does not yet support array literals"@)),
        },
        Expr::Variable(name) => match lookup(vars, name@) {
            Err(x) => Err(x),
            Ok(id) => Ok(MirExpr { ty: vars[id.0 as int].ty, kind: MirExprKind::Var(id) }),
        },
        Expr::Unary { op, expr } => match lower_expr_spec(vars, *expr) {
            Err(x) => Err(x),
            Ok(inner) => match op {
                UnaryOp::Negate => match expect_spec(inner.ty, MirType::Int, "unary minus operand"@) {
                    Err(x) => Err(x),
                    Ok(()) => Ok(MirExpr { ty: MirType::Int, kind: MirExprKind::Unary { op: MirUnaryOp::Negate, expr: Box::new(inner) } }),
                },
                UnaryOp::Not => match expect_spec(inner.ty, MirType::Bool, "logical not operand"@) {
                    Err(x) => Err(x),
                    Ok(()) => Ok(MirExpr { ty: MirType::Bool, kind: MirExprKind::Unary { op: MirUnaryOp::Not, expr: Box::new(inner) } }),
                },
            },
        },
        Expr::Binary { left, op, right } => match lower_expr_spec(vars, *left) {
            Err(x) => Err(x),
            Ok(l) => match lower_expr_spec(vars, *right) {
                Err(x) => Err(x),
                Ok(r) => match binary_type(mir_op(op), l.ty, r.ty) {
                    Err(x) => Err(x),
                    Ok(ty) => Ok(MirExpr { ty, kind: MirExprKind::Binary { op: mir_op(op), left: Box::new(l), right: Box::new(r) } }),
                },
            },
        },
        Expr::Index { .. } => Err(LangErrorV::Runtime("code generation backend does not yet support array indexing"@)),
    }
}

/// The type of a compound assignment's result on integer operands.
pub open spec fn compound_type(op: MirBinaryOp) -> MirType {
    if is_arithmetic(op) {
        MirType::Int
    } else {
        MirType::Bool
    }
}

/// The value that an assignment to variable `var` of type `ty` stores.
pub open spec fn lower_assign_value(vars: Seq<VarV>, var: VarId, ty: MirType, kind: AssignmentKind) -> Result<MirExpr, LangErrorV> {
    match kind {
        AssignmentKind::Simple(e) => match lower_expr_spec(vars, e) {
            Err(x) => Err(x),
            Ok(v) => match expect_spec(ty, v.ty, "assignment"@) {
                Err(x) => Err(x),
                Ok(()) => Ok(v),
            },
        },
        AssignmentKind::Compound { op, expr } => if ty != MirType::Int {
            Err(LangErrorV::Type("compound assignment currently supported only for integers"@))
        } else {
            match lower_expr_spec(vars, expr) {
                Err(x) => Err(x),
                Ok(rhs) => match expect_spec(ty, rhs.ty, "compound assignment operand"@) {
                    Err(x) => Err(x),
                    Ok(()) => Ok(MirExpr {
                        ty: compound_type(mir_op(op)),
                        kind: MirExprKind::Binary {
                            op: mir_op(op),
                            left: Box::new(MirExpr { ty, kind: MirExprKind::Var(var) }),
                            right: Box::new(rhs),
                        },
                    }),
                },
            }
        },
        AssignmentKind::Increment(op) => if ty != MirType::Int {
            Err(LangErrorV::Type("increment and decrement are only defined for integers"@))
        } else {
            Ok(MirExpr {
                ty: MirType::Int,
                kind: MirExprKind::Binary {
                    op: MirBinaryOp::Add,
                    left: Box::new(MirExpr { ty: MirType::Int, kind: MirExprKind::Var(var) }),
                    right: Box::new(MirExpr {
                        ty: MirType::Int,
                        kind: MirExprKind::Int(if op == IncrementOp::Increment { 1i64 } else { -1i64 }),
                    }),
                },
            })
        },
    }
}

/// The lowered form of an assignment: only to a variable by name.
pub open spec fn lower_assignment_spec(vars: Seq<VarV>, a: Assignment) -> Result<MirStmtV, LangErrorV> {
    match a.target {
        AssignmentTarget::Name(name) => match lookup(vars, name@) {
            Err(x) => Err(x),
            Ok(var) => match lower_assign_value(vars, var, vars[var.0 as int].ty, a.kind) {
                Err(x) => Err(x),
                Ok(value) => Ok(MirStmtV::Assign { var, value }),
            },
        },
        _ => Err(LangErrorV::Runtime("code generation backend does not yet support indexed assignments"@)),
    }
}

/// The lowered form of a declaration: a name is declared once; the variable is in scope in its
/// own initialiser.
pub open spec fn lower_let_spec(st: LowerState, d: VarDeclaration) -> Result<(LowerState, MirStmtV), LangErrorV> {
    if var_index_from(st.vars, d.name@, 0) >= 0 {
        Err(LangErrorV::Type("variable `"@ + d.name@ + "` declared more than once"@))
    } else {
        match resolve_mir_type(d.ty) {
            Err(x) => Err(x),
            Ok(ty) => {
                let var = VarId(st.vars.len() as usize);
                let vars = st.vars.push(VarV { name: d.name@, ty, mutable: d.mutable });
                let next = LowerState { vars, in_loop: st.in_loop };
                match d.value {
                    None => Ok((next, MirStmtV::Let { var, init: None })),
                    Some(e) => match lower_expr_spec(vars, e) {
                        Err(x) => Err(x),
                        Ok(v) => match expect_spec(ty, v.ty, "variable initializer"@) {
                            Err(x) => Err(x),
                            Ok(()) => Ok((next, MirStmtV::Let { var, init: Some(v) })),
                        },
                    },
                }
            },
        }
    }
}

/// The lowered form of a statement, and the state after it.
pub open spec fn lower_stmt_spec(st: LowerState, s: Statement) -> Result<(LowerState, MirStmtV), LangErrorV>
    decreases s, 0nat,
{
    match s {
        Statement::Let(d) => lower_let_spec(st, d),
        Statement::Assignment(a) => match lower_assignment_spec(st.vars, a) {
            Err(x) => Err(x),
            Ok(m) => Ok((st, m)),
        },
        Statement::Echo(e) => match lower_expr_spec(st.vars, e) {
            Err(x) => Err(x),
            Ok(v) => Ok((st, MirStmtV::Echo(v))),
        },
        Statement::If(i) => lower_if_spec(st, i),
        Statement::While(w) => match lower_expr_spec(st.vars, w.condition) {
            Err(x) => Err(x),
            Ok(cond) => match expect_spec(cond.ty, MirType::Bool, "while condition"@) {
                Err(x) => Err(x),
                Ok(()) => match lower_block_spec(LowerState { vars: st.vars, in_loop: true }, w.body@, 0, Seq::empty()) {
                    Err(x) => Err(x),
                    Ok((after, body)) => Ok((LowerState { vars: after.vars, in_loop: st.in_loop }, MirStmtV::While { cond, body })),
                },
            },
        },
        Statement::Break => if st.in_loop {
            Ok((st, MirStmtV::Break))
        } else {
            Err(LangErrorV::Runtime("`break` outside of loop"@))
        },
        Statement::Continue => if st.in_loop {
            Ok((st, MirStmtV::Continue))
        } else {
            Err(LangErrorV::Runtime("`continue` outside of loop"@))
        },
    }
}

/// The lowered forms of the statements of a block from position `i` on, after `acc`.
pub open spec fn lower_block_spec(st: LowerState, stmts: Seq<Statement>, i: int, acc: Seq<MirStmtV>) -> Result<(LowerState, Seq<MirStmtV>), LangErrorV>
    decreases stmts, stmts.len() - i,
{
    if i < 0 || i >= stmts.len() {
        Ok((st, acc))
    } else {
        match lower_stmt_spec(st, stmts[i]) {
            Err(x) => Err(x),
            Ok((next, m)) => lower_block_spec(next, stmts, i + 1, acc.push(m)),
        }
    }
}

/// The lowered form of an `if` statement; an `else if` becomes an `else` block holding one `if`.
pub open spec fn lower_if_spec(st: LowerState, i: IfStatement) -> Result<(LowerState, MirStmtV), LangErrorV>
    decreases i, 0nat,
{
    match lower_expr_spec(st.vars, i.condition) {
        Err(x) => Err(x),
        Ok(cond) => match expect_spec(cond.ty, MirType::Bool, "if condition"@) {
            Err(x) => Err(x),
            Ok(()) => match lower_block_spec(st, i.then_branch@, 0, Seq::empty()) {
                Err(x) => Err(x),
                Ok((st1, then_body)) => match i.else_branch {
                    None => Ok((st1, MirStmtV::If { cond, then_body, else_body: Seq::empty() })),
                    Some(b) => match *b {
                        ElseBranch::If(nested) => match lower_if_spec(st1, nested) {
                            Err(x) => Err(x),
                            Ok((st2, m)) => Ok((st2, MirStmtV::If { cond, then_body, else_body: seq![m] })),
                        },
                        ElseBranch::Block(block) => match lower_block_spec(st1, block@, 0, Seq::empty()) {
                            Err(x) => Err(x),
                            Ok((st2, else_body)) => Ok((st2, MirStmtV::If { cond, then_body, else_body })),
                        },
                    },
                },
            },
        },
    }
}

/// The lowered form of a program: its variables and its statements.
pub open spec fn lower_program(stmts: Seq<Statement>) -> Result<(Seq<VarV>, Seq<MirStmtV>), LangErrorV> {
    match lower_block_spec(LowerState { vars: Seq::empty(), in_loop: false }, stmts, 0, Seq::empty()) {
        Err(x) => Err(x),
        Ok((st, body)) => Ok((st.vars, body)),
    }
}

/// The state of lowering: the variables declared so far, and how deeply loops nest.
struct LoweringContext {
    variables: Vec<MirVariable>,
    loop_depth: usize,
}

impl View for LoweringContext {
    type V = LowerState;

    closed spec fn view(&self) -> LowerState {
        LowerState { vars: vars_view(self.variables@), in_loop: self.loop_depth > 0 }
    }
}

/// Appending a statement appends its view.
proof fn lemma_stmts_push(ss: Seq<MirStatement>, m: MirStatement)
    ensures
        stmts_view(ss.push(m)) == stmts_view(ss).push(m@),
{
    assert(ss.push(m).drop_last() =~= ss);
}

impl LoweringContext {
    /// A context with no variables, outside every loop.
    fn new() -> (r: LoweringContext)
        ensures
            r@ == (LowerState { vars: Seq::empty(), in_loop: false }),
    {
        let r = LoweringContext { variables: Vec::new(), loop_depth: 0 };
        assert(vars_view(r.variables@) =~= Seq::<VarV>::empty());
        r
    }

    /// The variable named `name`.
    fn lookup_var(&self, name: &str) -> (r: Result<VarId, LangError>)
        ensures
            match lookup(self@.vars, name@) {
                Ok(id) => r matches Ok(v) && v == id,
                Err(e) => r matches Err(f) && f@ == e,
            },
    {
        let ghost vars = self@.vars;
        let mut i: usize = 0;
        while i < self.variables.len()
            invariant
                vars == self@.vars,
                vars == vars_view(self.variables@),
                i <= self.variables@.len(),
                var_index_from(vars, name@, 0) == var_index_from(vars, name@, i as int),
            decreases self.variables@.len() - i,
        {
            if str_eq(self.variables[i].name.as_str(), name) {
                return Ok(VarId(i));
            }
            i = i + 1;
        }
        let mut msg = owned("variable `");
        push_str(&mut msg, name);
        push_str(&mut msg, "` referenced before declaration");
        Err(LangError::Runtime(msg))
    }

    /// Declares a variable and returns its identifier.
    fn push_variable(&mut self, name: String, ty: MirType, mutable: bool) -> (id: VarId)
        ensures
            id == VarId(old(self)@.vars.len() as usize),
            final(self)@ == (LowerState {
                vars: old(self)@.vars.push(VarV { name: name@, ty, mutable }),
                in_loop: old(self)@.in_loop,
            }),
    {
        let id = VarId(self.variables.len());
        let ghost before = self.variables@;
        self.variables.push(MirVariable { name, ty, mutable });
        assert(vars_view(self.variables@) =~= vars_view(before).push(self.variables@.last()@));
        id
    }

    /// The type that a declaration names.
    fn resolve_type(&self, annotation: &Option<TypeAnnotation>) -> (r: Result<MirType, LangError>)
        ensures
            match resolve_mir_type(*annotation) {
                Ok(t) => r matches Ok(u) && u == t,
                Err(e) => r matches Err(f) && f@ == e,
            },
    {
        let annotation = match annotation {
            Some(a) => a,
            None => return Err(LangError::Runtime(owned("explicit type annotation required for native compilation"))),
        };
        if annotation.generics.len() != 0 {
            return Err(LangError::Runtime(owned("generic type annotations are not yet supported by native backend")));
        }
        let lowered = ascii_lowercase(annotation.name.as_str());
        if str_eq(lowered.as_str(), "int") {
            Ok(MirType::Int)
        } else if str_eq(lowered.as_str(), "bool") {
            Ok(MirType::Bool)
        } else {
            let mut msg = owned("native backend does not support type `");
            push_str(&mut msg, lowered.as_str());
            push_str(&mut msg, "`");
            Err(LangError::Runtime(msg))
        }
    }

    /// The lowered form of a literal: integers and booleans only.
    fn lower_literal(&self, literal: &Literal) -> (r: Result<MirExpr, LangError>)
        ensures
            match lower_expr_spec(self@.vars, Expr::Literal(*literal)) {
                Ok(x) => r matches Ok(y) && y == x,
                Err(e) => r matches Err(f) && f@ == e,
            },
    {
        match literal {
            Literal::Integer(v) => Ok(MirExpr::integer(*v)),
            Literal::Bool(v) => Ok(MirExpr::boolean(*v)),
            Literal::Float(_) => Err(LangError::Runtime(owned("native code generation does not yet support floating point literals"))),
            Literal::Str(_) => Err(LangError::Runtime(owned("native code generation does not yet support string literals"))),
            Literal::Array(_) => Err(LangError::Runtime(owned("native code generation does not yet support array literals"))),
        }
    }

    /// The operation that a binary operator becomes.
    fn lower_binary_op(&self, op: &BinaryOp) -> (r: MirBinaryOp)
        ensures
            r == mir_op(*op),
    {
        match op {
            BinaryOp::Add => MirBinaryOp::Add,
            BinaryOp::Subtract => MirBinaryOp::Subtract,
            BinaryOp::Multiply => MirBinaryOp::Multiply,
            BinaryOp::Divide => MirBinaryOp::Divide,
            BinaryOp::Modulo => MirBinaryOp::Modulo,
            BinaryOp::Equal => MirBinaryOp::Equal,
            BinaryOp::NotEqual => MirBinaryOp::NotEqual,
            BinaryOp::Less => MirBinaryOp::Less,
            BinaryOp::LessEqual => MirBinaryOp::LessEqual,
            BinaryOp::Greater => MirBinaryOp::Greater,
            BinaryOp::GreaterEqual => MirBinaryOp::GreaterEqual,
            BinaryOp::And => MirBinaryOp::And,
            BinaryOp::Or => MirBinaryOp::Or,
        }
    }

    /// The type of a binary operation on the two operands.
    fn resolve_binary_type(&self, op: &MirBinaryOp, left: &MirExpr, right: &MirExpr) -> (r: Result<MirType, LangError>)
        ensures
            match binary_type(*op, left.ty, right.ty) {
                Ok(t) => r matches Ok(u) && u == t,
                Err(e) => r matches Err(f) && f@ == e,
            },
    {
        match op {
            MirBinaryOp::Add | MirBinaryOp::Subtract | MirBinaryOp::Multiply | MirBinaryOp::Divide | MirBinaryOp::Modulo => {
                match left.ty.expect(MirType::Int, "binary operation left operand") {
                    Ok(()) => {},
                    Err(x) => return Err(x),
                }
                match right.ty.expect(MirType::Int, "binary operation right operand") {
                    Ok(()) => {},
                    Err(x) => return Err(x),
                }
                Ok(MirType::Int)
            },
            MirBinaryOp::Equal | MirBinaryOp::NotEqual => {
                if left.ty != right.ty {
                    return Err(LangError::Type(owned("equality comparison requires matching operand types")));
                }
                Ok(MirType::Bool)
            },
            MirBinaryOp::Less | MirBinaryOp::LessEqual | MirBinaryOp::Greater | MirBinaryOp::GreaterEqual => {
                match left.ty.expect(MirType::Int, "comparison left operand") {
                    Ok(()) => {},
                    Err(x) => return Err(x),
                }
                match right.ty.expect(MirType::Int, "comparison right operand") {
                    Ok(()) => {},
                    Err(x) => return Err(x),
                }
                Ok(MirType::Bool)
            },
            MirBinaryOp::And | MirBinaryOp::Or => {
                match left.ty.expect(MirType::Bool, "logical operand") {
                    Ok(()) => {},
                    Err(x) => return Err(x),
                }
                match right.ty.expect(MirType::Bool, "logical operand") {
                    Ok(()) => {},
                    Err(x) => return Err(x),
                }
                Ok(MirType::Bool)
            },
        }
    }

    /// The result type of a compound assignment with operation `op` on operands of type
    /// `operand_ty`: comparisons and logic need integer operands and give booleans.
    fn result_type(&self, op: &MirBinaryOp, operand_ty: MirType) -> (r: Result<MirType, LangError>)
        ensures
            is_arithmetic(*op) ==> (r matches Ok(t) && t == MirType::Int),
            !is_arithmetic(*op) ==> match expect_spec(operand_ty, MirType::Int, "compound assignment operand"@) {
                Ok(()) => r matches Ok(t) && t == MirType::Bool,
                Err(e) => r matches Err(f) && f@ == e,
            },
    {
        match op {
            MirBinaryOp::Add | MirBinaryOp::Subtract | MirBinaryOp::Multiply | MirBinaryOp::Divide | MirBinaryOp::Modulo => {
                Ok(MirType::Int)
            },
            _ => {
                match operand_ty.expect(MirType::Int, "compound assignment operand") {
                    Ok(()) => {},
                    Err(x) => return Err(x),
                }
                Ok(MirType::Bool)
            },
        }
    }

    /// The lowered form of an expression.
    fn lower_expr(&self, expr: &Expr) -> (r: Result<MirExpr, LangError>)
        ensures
            match lower_expr_spec(self@.vars, *expr) {
                Ok(x) => r matches Ok(y) && y == x,
                Err(e) => r matches Err(f) && f@ == e,
            },
        decreases expr,
    {
        proof {
            crate::mir::lemma_vars_index(self.variables@);
        }
        match expr {
            Expr::Literal(lit) => self.lower_literal(lit),
            Expr::Variable(name) => {
                let var = match self.lookup_var(name.as_str()) {
                    Ok(v) => v,
                    Err(x) => return Err(x),
                };
                proof {
                    lemma_var_index(self@.vars, name@, 0);
                }
                let ty = self.variables[var.0].ty;
                Ok(MirExpr::variable(var, ty))
            },
            Expr::Unary { op, expr } => {
                let inner = match self.lower_expr(expr) {
                    Ok(v) => v,
                    Err(x) => return Err(x),
                };
                match op {
                    UnaryOp::Negate => {
                        match inner.ty.expect(MirType::Int, "unary minus operand") {
                            Ok(()) => {},
                            Err(x) => return Err(x),
                        }
                        Ok(MirExpr::unary(MirType::Int, MirUnaryOp::Negate, inner))
                    },
                    UnaryOp::Not => {
                        match inner.ty.expect(MirType::Bool, "logical not operand") {
                            Ok(()) => {},
                            Err(x) => return Err(x),
                        }
                        Ok(MirExpr::unary(MirType::Bool, MirUnaryOp::Not, inner))
                    },
                }
            },
            Expr::Binary { left, op, right } => {
                let l = match self.lower_expr(left) {
                    Ok(v) => v,
                    Err(x) => return Err(x),
                };
                let r = match self.lower_expr(right) {
                    Ok(v) => v,
                    Err(x) => return Err(x),
                };
                let m = self.lower_binary_op(op);
                let ty = match self.resolve_binary_type(&m, &l, &r) {
                    Ok(t) => t,
                    Err(x) => return Err(x),
                };
                Ok(MirExpr::binary(m, l, r, ty))
            },
            Expr::Index { .. } => Err(LangError::Runtime(owned("code generation backend does not yet support array indexing"))),
        }
    }
}

/// The variables' views, position by position.
proof fn lemma_vars_index(vs: Seq<MirVariable>)
    ensures
        vars_view(vs).len() == vs.len(),
        forall|i: int| 0 <= i < vs.len() ==> #[trigger] vars_view(vs)[i] == vs[i]@,
{
}

/// A found position lies in range.
proof fn lemma_var_index(vars: Seq<VarV>, name: Seq<char>, i: int)
    requires
        0 <= i,
    ensures
        var_index_from(vars, name, i) == -1 || i <= var_index_from(vars, name, i) < vars.len(),
    decreases vars.len() - i,
{
    if i < vars.len() && vars[i].name != name {
        lemma_var_index(vars, name, i + 1);
    }
}

impl LoweringContext {
    /// The value that an assignment to `var` of type `var_ty` stores.
    fn lower_assignment_value(&self, var: VarId, var_ty: MirType, kind: &AssignmentKind) -> (r: Result<MirExpr, LangError>)
        ensures
            match lower_assign_value(self@.vars, var, var_ty, *kind) {
                Ok(x) => r matches Ok(y) && y == x,
                Err(e) => r matches Err(f) && f@ == e,
            },
    {
        match kind {
            AssignmentKind::Simple(expr) => {
                let lowered = match self.lower_expr(expr) {
                    Ok(v) => v,
                    Err(x) => return Err(x),
                };
                match var_ty.expect(lowered.ty, "assignment") {
                    Ok(()) => {},
                    Err(x) => return Err(x),
                }
                Ok(lowered)
            },
            AssignmentKind::Compound { op, expr } => {
                if var_ty != MirType::Int {
                    return Err(LangError::Type(owned("compound assignment currently supported only for integers")));
                }
                let rhs = match self.lower_expr(expr) {
                    Ok(v) => v,
                    Err(x) => return Err(x),
                };
                match var_ty.expect(rhs.ty, "compound assignment operand") {
                    Ok(()) => {},
                    Err(x) => return Err(x),
                }
                let lhs = MirExpr::variable(var, var_ty);
                let m = self.lower_binary_op(op);
                let ty = match self.result_type(&m, var_ty) {
                    Ok(t) => t,
                    Err(x) => return Err(x),
                };
                Ok(MirExpr::binary(m, lhs, rhs, ty))
            },
            AssignmentKind::Increment(op) => {
                if var_ty != MirType::Int {
                    return Err(LangError::Type(owned("increment and decrement are only defined for integers")));
                }
                let delta: i64 = match op {
                    IncrementOp::Increment => 1,
                    IncrementOp::Decrement => -1,
                };
                let lhs = MirExpr::variable(var, MirType::Int);
                let rhs = MirExpr::integer(delta);
                Ok(MirExpr::binary(MirBinaryOp::Add, lhs, rhs, MirType::Int))
            },
        }
    }

    /// The lowered form of an assignment.
    fn lower_assignment(&self, assignment: &Assignment) -> (r: Result<MirStatement, LangError>)
        ensures
            match lower_assignment_spec(self@.vars, *assignment) {
                Ok(m) => r matches Ok(s) && s@ == m,
                Err(e) => r matches Err(f) && f@ == e,
            },
    {
        let target = match &assignment.target {
            AssignmentTarget::Name(name) => name,
            _ => return Err(LangError::Runtime(owned("code generation backend does not yet support indexed assignments"))),
        };
        let var = match self.lookup_var(target.as_str()) {
            Ok(v) => v,
            Err(x) => return Err(x),
        };
        proof {
            lemma_var_index(self@.vars, target@, 0);
            lemma_vars_index(self.variables@);
        }
        let var_ty = self.variables[var.0].ty;
        let value = match self.lower_assignment_value(var, var_ty, &assignment.kind) {
            Ok(v) => v,
            Err(x) => return Err(x),
        };
        Ok(MirStatement::Assign { var, value })
    }

    /// The lowered form of a declaration.
    fn lower_let(&mut self, decl: &VarDeclaration) -> (r: Result<MirStatement, LangError>)
        ensures
            match lower_let_spec(old(self)@, *decl) {
                Ok((st, m)) => r matches Ok(s) && s@ == m && final(self)@ == st,
                Err(e) => r matches Err(f) && f@ == e,
            },
    {
        match self.lookup_var(decl.name.as_str()) {
            Ok(_) => {
                let mut msg = owned("variable `");
                push_str(&mut msg, decl.name.as_str());
                push_str(&mut msg, "` declared more than once");
                return Err(LangError::Type(msg));
            },
            Err(_) => {},
        }
        let ty = match self.resolve_type(&decl.ty) {
            Ok(t) => t,
            Err(x) => return Err(x),
        };
        let var = self.push_variable(decl.name.clone(), ty, decl.mutable);
        let init = match &decl.value {
            Some(expr) => {
                let lowered = match self.lower_expr(expr) {
                    Ok(v) => v,
                    Err(x) => return Err(x),
                };
                match ty.expect(lowered.ty, "variable initializer") {
                    Ok(()) => {},
                    Err(x) => return Err(x),
                }
                Some(lowered)
            },
            None => None,
        };
        Ok(MirStatement::Let { var, init })
    }

    /// The lowered form of a statement.
    fn lower_statement(&mut self, statement: &Statement) -> (r: Result<MirStatement, LangError>)
        ensures
            match lower_stmt_spec(old(self)@, *statement) {
                Ok((st, m)) => r matches Ok(s) && s@ == m && final(self)@ == st,
                Err(e) => r matches Err(f) && f@ == e,
            },
        decreases statement, 0nat,
    {
        match statement {
            Statement::Let(decl) => self.lower_let(decl),
            Statement::Assignment(assign) => self.lower_assignment(assign),
            Statement::Echo(expr) => match self.lower_expr(expr) {
                Ok(v) => Ok(MirStatement::Echo(v)),
                Err(x) => Err(x),
            },
            Statement::If(if_stmt) => self.lower_if(if_stmt),
            Statement::While(while_stmt) => self.lower_while(while_stmt),
            Statement::Break => {
                if self.loop_depth == 0 {
                    return Err(LangError::Runtime(owned("`break` outside of loop")));
                }
                Ok(MirStatement::Break)
            },
            Statement::Continue => {
                if self.loop_depth == 0 {
                    return Err(LangError::Runtime(owned("`continue` outside of loop")));
                }
                Ok(MirStatement::Continue)
            },
        }
    }

    /// The lowered forms of the statements of a block.
    fn lower_block(&mut self, statements: &Vec<Statement>) -> (r: Result<Vec<MirStatement>, LangError>)
        ensures
            match lower_block_spec(old(self)@, statements@, 0, Seq::empty()) {
                Ok((st, ms)) => r matches Ok(v) && stmts_view(v@) == ms && final(self)@ == st,
                Err(e) => r matches Err(f) && f@ == e,
            },
        decreases statements, 0nat,
    {
        let ghost target = lower_block_spec(self@, statements@, 0, Seq::empty());
        let mut lowered: Vec<MirStatement> = Vec::new();
        let mut i: usize = 0;
        while i < statements.len()
            invariant
                i <= statements@.len(),
                target == lower_block_spec(old(self)@, statements@, 0, Seq::empty()),
                target == lower_block_spec(self@, statements@, i as int, stmts_view(lowered@)),
            decreases statements@.len() - i,
        {
            proof {
                assert(decreases_to!(*statements => statements@));
                assert(decreases_to!(statements@ => statements@[i as int]));
            }
            let m = match self.lower_statement(&statements[i]) {
                Ok(m) => m,
                Err(x) => return Err(x),
            };
            proof { lemma_stmts_push(lowered@, m); }
            lowered.push(m);
            i = i + 1;
        }
        Ok(lowered)
    }

    /// The lowered form of an `if` statement.
    fn lower_if(&mut self, if_stmt: &IfStatement) -> (r: Result<MirStatement, LangError>)
        ensures
            match lower_if_spec(old(self)@, *if_stmt) {
                Ok((st, m)) => r matches Ok(s) && s@ == m && final(self)@ == st,
                Err(e) => r matches Err(f) && f@ == e,
            },
        decreases if_stmt, 1nat,
    {
        let cond = match self.lower_expr(&if_stmt.condition) {
            Ok(v) => v,
            Err(x) => return Err(x),
        };
        match cond.ty.expect(MirType::Bool, "if condition") {
            Ok(()) => {},
            Err(x) => return Err(x),
        }
        let then_body = match self.lower_block(&if_stmt.then_branch) {
            Ok(v) => v,
            Err(x) => return Err(x),
        };
        let else_body = match &if_stmt.else_branch {
            Some(branch) => {
                proof {
                    assert(decreases_to!(*if_stmt => if_stmt.else_branch));
                }
                match self.lower_else_branch(&**branch) {
                    Ok(v) => v,
                    Err(x) => return Err(x),
                }
            },
            None => {
                let v: Vec<MirStatement> = Vec::new();
                assert(stmts_view(v@) =~= Seq::<MirStmtV>::empty());
                v
            },
        };
        Ok(MirStatement::If { cond, then_body, else_body })
    }

    /// The lowered form of what follows `else`.
    fn lower_else_branch(&mut self, branch: &ElseBranch) -> (r: Result<Vec<MirStatement>, LangError>)
        ensures
            match *branch {
                ElseBranch::If(nested) => match lower_if_spec(old(self)@, nested) {
                    Ok((st, m)) => r matches Ok(v) && stmts_view(v@) == seq![m] && final(self)@ == st,
                    Err(e) => r matches Err(f) && f@ == e,
                },
                ElseBranch::Block(block) => match lower_block_spec(old(self)@, block@, 0, Seq::empty()) {
                    Ok((st, ms)) => r matches Ok(v) && stmts_view(v@) == ms && final(self)@ == st,
                    Err(e) => r matches Err(f) && f@ == e,
                },
            },
        decreases branch, 0nat,
    {
        match branch {
            ElseBranch::If(nested) => {
                let m = match self.lower_if(nested) {
                    Ok(m) => m,
                    Err(x) => return Err(x),
                };
                let ghost mv = m@;
                let v = vec![m];
                proof {
                    lemma_stmts_push(Seq::empty(), v@[0]);
                    assert(v@ =~= Seq::<MirStatement>::empty().push(v@[0]));
                    assert(stmts_view(Seq::<MirStatement>::empty()) =~= Seq::<MirStmtV>::empty());
                    assert(stmts_view(v@) =~= seq![mv]);
                }
                Ok(v)
            },
            ElseBranch::Block(statements) => self.lower_block(statements),
        }
    }

    /// The lowered form of a `while` statement.
    fn lower_while(&mut self, while_stmt: &WhileStatement) -> (r: Result<MirStatement, LangError>)
        ensures
            match lower_stmt_spec(old(self)@, Statement::While(*while_stmt)) {
                Ok((st, m)) => r matches Ok(s) && s@ == m && final(self)@ == st,
                Err(e) => r matches Err(f) && f@ == e,
            },
        decreases while_stmt, 0nat,
    {
        let cond = match self.lower_expr(&while_stmt.condition) {
            Ok(v) => v,
            Err(x) => return Err(x),
        };
        match cond.ty.expect(MirType::Bool, "while condition") {
            Ok(()) => {},
            Err(x) => return Err(x),
        }
        let saved = self.loop_depth;
        if self.loop_depth < usize::MAX {
            self.loop_depth = self.loop_depth + 1;
        }
        let body = match self.lower_block(&while_stmt.body) {
            Ok(v) => v,
            Err(x) => return Err(x),
        };
        self.loop_depth = saved;
        Ok(MirStatement::While { cond, body })
    }
}

/// Lowers a program's statements into the intermediate form.
pub fn lower_to_mir(statements: &[Statement]) -> (r: Result<MirProgram, LangError>)
    ensures
        match lower_program(statements@) {
            Ok((vars, body)) => r matches Ok(p) && vars_view(p.variables@) == vars && stmts_view(p.body@) == body,
            Err(e) => r matches Err(f) && f@ == e,
        },
{
    let mut ctx = LoweringContext::new();
    let ghost target = lower_block_spec(ctx@, statements@, 0, Seq::empty());
    let mut body: Vec<MirStatement> = Vec::new();
    let mut i: usize = 0;
    assert(stmts_view(body@) =~= Seq::<MirStmtV>::empty());
    while i < statements.len()
        invariant
            i <= statements@.len(),
            target == lower_block_spec(LowerState { vars: Seq::empty(), in_loop: false }, statements@, 0, Seq::empty()),
            target == lower_block_spec(ctx@, statements@, i as int, stmts_view(body@)),
        decreases statements@.len() - i,
    {
        let m = match ctx.lower_statement(&statements[i]) {
            Ok(m) => m,
            Err(x) => return Err(x),
        };
        proof { lemma_stmts_push(body@, m); }
        body.push(m);
        i = i + 1;
    }
    Ok(MirProgram { variables: ctx.variables, body })
}

} // verus!
