//! The syntax tree of programs.
use vstd::prelude::*;

verus! {

/// A statement.
#[derive(Debug, PartialEq)]
pub enum Statement {
    Let(VarDeclaration),
    Assignment(Assignment),
    Echo(Expr),
    If(IfStatement),
    While(WhileStatement),
    Break,
    Continue,
}

/// A type as written in a declaration, e.g. `int` or `arr<str, int>`.
#[derive(Debug, PartialEq)]
pub struct TypeAnnotation {
    pub name: String,
    pub generics: Vec<TypeAnnotation>,
}

impl TypeAnnotation {
    /// A type without generic arguments.
    pub fn new(name: String) -> (r: TypeAnnotation)
        ensures
            r.name == name,
            r.generics@.len() == 0,
    {
        TypeAnnotation { name, generics: Vec::new() }
    }

    /// A type with generic arguments.
    pub fn with_generics(name: String, generics: Vec<TypeAnnotation>) -> (r: TypeAnnotation)
        ensures
            r.name == name,
            r.generics == generics,
    {
        TypeAnnotation { name, generics }
    }
}

/// A variable declaration: its name, optional type, mutability and optional initial value.
#[derive(Debug, PartialEq)]
pub struct VarDeclaration {
    pub name: String,
    pub ty: Option<TypeAnnotation>,
    pub mutable: bool,
    pub value: Option<Expr>,
}

impl VarDeclaration {
    /// A declaration with the given parts.
    pub fn new(name: String, ty: Option<TypeAnnotation>, mutable: bool, value: Option<Expr>) -> (r: VarDeclaration)
        ensures
            r.name == name,
            r.ty == ty,
            r.mutable == mutable,
            r.value == value,
    {
        VarDeclaration { name, ty, mutable, value }
    }
}

/// An assignment: what is assigned to and how.
#[derive(Debug, PartialEq)]
pub struct Assignment {
    pub target: AssignmentTarget,
    pub kind: AssignmentKind,
}

impl Assignment {
    /// An assignment with the given target and kind.
    pub fn new(target: AssignmentTarget, kind: AssignmentKind) -> (r: Assignment)
        ensures
            r.target == target,
            r.kind == kind,
    {
        Assignment { target, kind }
    }
}

/// A variable, or an element of an array variable reached through a chain of indices.
#[derive(Debug, PartialEq)]
pub enum AssignmentTarget {
    Name(String),
    Indexed { name: String, indices: Vec<IndexTarget> },
}

/// One index of an assignment target: `[expr]`, or `[]` to append.
#[derive(Debug, PartialEq)]
pub enum IndexTarget {
    Index(Expr),
    Append,
}

/// `= expr`, `op= expr`, or `++` / `--`.
#[derive(Debug, PartialEq)]
pub enum AssignmentKind {
    Simple(Expr),
    Compound { op: BinaryOp, expr: Expr },
    Increment(IncrementOp),
}

/// A literal. Float literals keep the text they were written with.
#[derive(Debug, PartialEq)]
pub enum Literal {
    Integer(i64),
    Float(String),
    Bool(bool),
    Str(String),
    Array(Vec<ArrayElement>),
}

/// An expression.
#[derive(Debug, PartialEq)]
pub enum Expr {
    Literal(Literal),
    Variable(String),
    Index { target: Box<Expr>, index: Box<Expr> },
    Unary { op: UnaryOp, expr: Box<Expr> },
    Binary { left: Box<Expr>, op: BinaryOp, right: Box<Expr> },
}

/// `if (condition) { ... } else ...`.
#[derive(Debug, PartialEq)]
pub struct IfStatement {
    pub condition: Expr,
    pub then_branch: Vec<Statement>,
    pub else_branch: Option<Box<ElseBranch>>,
}

impl IfStatement {
    /// An `if` with the given parts.
    pub fn new(condition: Expr, then_branch: Vec<Statement>, else_branch: Option<Box<ElseBranch>>) -> (r: IfStatement)
        ensures
            r.condition == condition,
            r.then_branch == then_branch,
            r.else_branch == else_branch,
    {
        IfStatement { condition, then_branch, else_branch }
    }
}

/// What follows `else`: another `if`, or a block.
#[derive(Debug, PartialEq)]
pub enum ElseBranch {
    If(IfStatement),
    Block(Vec<Statement>),
}

/// `while (condition) { ... }`.
#[derive(Debug, PartialEq)]
pub struct WhileStatement {
    pub condition: Expr,
    pub body: Vec<Statement>,
}

impl WhileStatement {
    /// A loop with the given condition and body.
    pub fn new(condition: Expr, body: Vec<Statement>) -> (r: WhileStatement)
        ensures
            r.condition == condition,
            r.body == body,
    {
        WhileStatement { condition, body }
    }
}

/// An element of an array literal: a value, or `key => value`.
#[derive(Debug, PartialEq)]
pub enum ArrayElement {
    Value(Expr),
    KeyValue { key: Expr, value: Expr },
}

/// Unary operators.
#[derive(Debug, Clone, Copy, PartialEq, Eq, Structural)]
pub enum UnaryOp {
    Negate,
    Not,
}

/// Binary operators.
#[derive(Debug, Clone, Copy, PartialEq, Eq, Structural)]
pub enum BinaryOp {
    Add,
    Subtract,
    Multiply,
    Divide,
    Modulo,
    Equal,
    NotEqual,
    Less,
    LessEqual,
    Greater,
    GreaterEqual,
    And,
    Or,
}

/// `++` and `--`.
#[derive(Debug, Clone, Copy, PartialEq, Eq, Structural)]
pub enum IncrementOp {
    Increment,
    Decrement,
}

/// The mathematical content of a [`TypeAnnotation`].
pub struct TypeV {
    pub name: Seq<char>,
    pub generics: Seq<TypeV>,
}

/// The mathematical content of a [`Literal`].
pub enum LiteralV {
    Integer(i64),
    Float(Seq<char>),
    Bool(bool),
    Str(Seq<char>),
    Array(Seq<ElementV>),
}

/// The mathematical content of an [`ArrayElement`].
pub enum ElementV {
    Value(ExprV),
    KeyValue { key: ExprV, value: ExprV },
}

/// The mathematical content of an [`Expr`].
pub enum ExprV {
    Literal(LiteralV),
    Variable(Seq<char>),
    Index { target: Box<ExprV>, index: Box<ExprV> },
    Unary { op: UnaryOp, expr: Box<ExprV> },
    Binary { left: Box<ExprV>, op: BinaryOp, right: Box<ExprV> },
}

/// The mathematical content of an [`IndexTarget`].
pub enum IndexTargetV {
    Index(ExprV),
    Append,
}

/// The mathematical content of an [`AssignmentTarget`].
pub enum TargetV {
    Name(Seq<char>),
    Indexed { name: Seq<char>, indices: Seq<IndexTargetV> },
}

/// The mathematical content of an [`AssignmentKind`].
pub enum KindV {
    Simple(ExprV),
    Compound { op: BinaryOp, expr: ExprV },
    Increment(IncrementOp),
}

/// The mathematical content of an [`IfStatement`].
pub struct IfV {
    pub condition: ExprV,
    pub then_branch: Seq<StmtV>,
    pub else_branch: Option<Box<ElseV>>,
}

/// The mathematical content of an [`ElseBranch`].
pub enum ElseV {
    If(IfV),
    Block(Seq<StmtV>),
}

/// The mathematical content of a [`Statement`].
pub enum StmtV {
    Let { name: Seq<char>, ty: Option<TypeV>, mutable: bool, value: Option<ExprV> },
    Assign { target: TargetV, kind: KindV },
    Echo(ExprV),
    If(IfV),
    While { condition: ExprV, body: Seq<StmtV> },
    Break,
    Continue,
}

impl View for TypeAnnotation {
    type V = TypeV;

    open spec fn view(&self) -> TypeV
        decreases self,
    {
        TypeV { name: self.name@, generics: types_view(self.generics@) }
    }
}

/// The views of a list of types.
pub open spec fn types_view(ts: Seq<TypeAnnotation>) -> Seq<TypeV>
    decreases ts,
{
    if ts.len() == 0 {
        Seq::empty()
    } else {
        types_view(ts.drop_last()).push(ts.last().view())
    }
}

impl View for Expr {
    type V = ExprV;

    open spec fn view(&self) -> ExprV
        decreases self,
    {
        match self {
            Expr::Literal(lit) => ExprV::Literal(match lit {
                Literal::Integer(v) => LiteralV::Integer(*v),
                Literal::Float(t) => LiteralV::Float(t@),
                Literal::Bool(b) => LiteralV::Bool(*b),
                Literal::Str(t) => LiteralV::Str(t@),
                Literal::Array(els) => LiteralV::Array(elements_view(els@)),
            }),
            Expr::Variable(n) => ExprV::Variable(n@),
            Expr::Index { target, index } => ExprV::Index {
                target: Box::new((**target).view()),
                index: Box::new((**index).view()),
            },
            Expr::Unary { op, expr } => ExprV::Unary { op: *op, expr: Box::new((**expr).view()) },
            Expr::Binary { left, op, right } => ExprV::Binary {
                left: Box::new((**left).view()),
                op: *op,
                right: Box::new((**right).view()),
            },
        }
    }
}

/// The view of an array element.
pub open spec fn element_view(e: ArrayElement) -> ElementV
    decreases e,
{
    match e {
        ArrayElement::Value(x) => ElementV::Value(x.view()),
        ArrayElement::KeyValue { key, value } => ElementV::KeyValue { key: key.view(), value: value.view() },
    }
}

/// The views of a list of array elements.
pub open spec fn elements_view(es: Seq<ArrayElement>) -> Seq<ElementV>
    decreases es,
{
    if es.len() == 0 {
        Seq::empty()
    } else {
        elements_view(es.drop_last()).push(element_view(es.last()))
    }
}

impl View for IndexTarget {
    type V = IndexTargetV;

    open spec fn view(&self) -> IndexTargetV {
        match self {
            IndexTarget::Index(e) => IndexTargetV::Index(e@),
            IndexTarget::Append => IndexTargetV::Append,
        }
    }
}

impl View for AssignmentTarget {
    type V = TargetV;

    open spec fn view(&self) -> TargetV {
        match self {
            AssignmentTarget::Name(n) => TargetV::Name(n@),
            AssignmentTarget::Indexed { name, indices } => TargetV::Indexed {
                name: name@,
                indices: index_targets_view(indices@),
            },
        }
    }
}

impl View for AssignmentKind {
    type V = KindV;

    open spec fn view(&self) -> KindV {
        match self {
            AssignmentKind::Simple(e) => KindV::Simple(e@),
            AssignmentKind::Compound { op, expr } => KindV::Compound { op: *op, expr: expr@ },
            AssignmentKind::Increment(op) => KindV::Increment(*op),
        }
    }
}

impl View for Statement {
    type V = StmtV;

    open spec fn view(&self) -> StmtV
        decreases self,
    {
        match self {
            Statement::Let(d) => StmtV::Let {
                name: d.name@,
                ty: type_opt_view(d.ty),
                mutable: d.mutable,
                value: expr_opt_view(d.value),
            },
            Statement::Assignment(a) => StmtV::Assign { target: a.target@, kind: a.kind@ },
            Statement::Echo(e) => StmtV::Echo(e@),
            Statement::If(i) => StmtV::If(if_view(*i)),
            Statement::While(w) => StmtV::While { condition: w.condition@, body: statements_view(w.body@) },
            Statement::Break => StmtV::Break,
            Statement::Continue => StmtV::Continue,
        }
    }
}

/// The view of an optional type.
pub open spec fn type_opt_view(o: Option<TypeAnnotation>) -> Option<TypeV> {
    match o {
        Some(t) => Some(t@),
        None => None,
    }
}

/// The view of an optional expression.
pub open spec fn expr_opt_view(o: Option<Expr>) -> Option<ExprV> {
    match o {
        Some(e) => Some(e@),
        None => None,
    }
}

/// The views of index targets.
pub open spec fn index_targets_view(v: Seq<IndexTarget>) -> Seq<IndexTargetV> {
    v.map_values(|x: IndexTarget| x@)
}

/// The view of an `if` statement.
pub open spec fn if_view(i: IfStatement) -> IfV
    decreases i,
{
    IfV {
        condition: i.condition@,
        then_branch: statements_view(i.then_branch@),
        else_branch: match i.else_branch {
            None => None,
            Some(b) => Some(Box::new(match *b {
                ElseBranch::If(n) => ElseV::If(if_view(n)),
                ElseBranch::Block(bl) => ElseV::Block(statements_view(bl@)),
            })),
        },
    }
}

/// The views of a list of statements.
pub open spec fn statements_view(ss: Seq<Statement>) -> Seq<StmtV>
    decreases ss,
{
    if ss.len() == 0 {
        Seq::empty()
    } else {
        statements_view(ss.drop_last()).push(ss.last().view())
    }
}

/// Appending a statement appends its view.
pub proof fn lemma_statements_push(ss: Seq<Statement>, s: Statement)
    ensures
        statements_view(ss.push(s)) == statements_view(ss).push(s@),
{
    assert(ss.push(s).drop_last() =~= ss);
}

/// Appending an element appends its view.
pub proof fn lemma_elements_push(es: Seq<ArrayElement>, e: ArrayElement)
    ensures
        elements_view(es.push(e)) == elements_view(es).push(element_view(e)),
{
    assert(es.push(e).drop_last() =~= es);
}

/// Appending a type appends its view.
pub proof fn lemma_types_push(ts: Seq<TypeAnnotation>, t: TypeAnnotation)
    ensures
        types_view(ts.push(t)) == types_view(ts).push(t@),
{
    assert(ts.push(t).drop_last() =~= ts);
}

/// Whether an operator is one that a compound assignment (`+=`, `-=`, `*=`, `/=`, `%=`) writes.
pub open spec fn is_compound_op(op: BinaryOp) -> bool {
    op == BinaryOp::Add || op == BinaryOp::Subtract || op == BinaryOp::Multiply || op == BinaryOp::Divide
        || op == BinaryOp::Modulo
}

/// Whether every compound assignment in a statement, nested ones included, uses an operator
/// that the language writes as a compound assignment.
pub open spec fn stmt_wf(s: StmtV) -> bool
    decreases s, 0nat,
{
    match s {
        StmtV::Assign { target, kind } => match kind {
            KindV::Compound { op, expr } => is_compound_op(op),
            _ => true,
        },
        StmtV::If(i) => if_wf(i),
        StmtV::While { condition, body } => stmts_wf(body, 0),
        _ => true,
    }
}

/// [`stmt_wf`] for the statements from position `i` on.
pub open spec fn stmts_wf(ss: Seq<StmtV>, i: int) -> bool
    decreases ss, ss.len() - i,
{
    if i < 0 || i >= ss.len() {
        true
    } else {
        stmt_wf(ss[i]) && stmts_wf(ss, i + 1)
    }
}

/// [`stmt_wf`] for an `if` statement.
pub open spec fn if_wf(i: IfV) -> bool
    decreases i, 0nat,
{
    stmts_wf(i.then_branch, 0) && match i.else_branch {
        None => true,
        Some(b) => match *b {
            ElseV::If(n) => if_wf(n),
            ElseV::Block(bl) => stmts_wf(bl, 0),
        },
    }
}

/// [`stmts_wf`] from `i` on holds when it holds of each statement from `i` on.
pub proof fn lemma_stmts_wf(ss: Seq<StmtV>, i: int)
    requires
        0 <= i,
    ensures
        stmts_wf(ss, i) <==> forall|k: int| i <= k < ss.len() ==> #[trigger] stmt_wf(ss[k]),
    decreases ss.len() - i,
{
    if i < ss.len() {
        lemma_stmts_wf(ss, i + 1);
        if stmts_wf(ss, i) {
            assert forall|k: int| i <= k < ss.len() implies #[trigger] stmt_wf(ss[k]) by {
                if k > i {
                    assert(stmts_wf(ss, i + 1));
                }
            }
        }
        if forall|k: int| i <= k < ss.len() ==> #[trigger] stmt_wf(ss[k]) {
            assert(stmt_wf(ss[i]));
            assert forall|k: int| i + 1 <= k < ss.len() implies #[trigger] stmt_wf(ss[k]) by {
                assert(i <= k);
            }
        }
    }
}

/// The views of a list of statements, position by position.
pub proof fn lemma_statements_view(ss: Seq<Statement>)
    ensures
        statements_view(ss).len() == ss.len(),
        forall|i: int| 0 <= i < ss.len() ==> #[trigger] statements_view(ss)[i] == ss[i]@,
    decreases ss.len(),
{
    if ss.len() > 0 {
        lemma_statements_view(ss.drop_last());
        assert(statements_view(ss) == statements_view(ss.drop_last()).push(ss.last()@));
        assert forall|i: int| 0 <= i < ss.len() implies #[trigger] statements_view(ss)[i] == ss[i]@ by {
            if i < ss.len() - 1 {
                assert(ss.drop_last()[i] == ss[i]);
            }
        }
    }
}

/// The views of a list of array elements, position by position.
pub proof fn lemma_elements_view(es: Seq<ArrayElement>)
    ensures
        elements_view(es).len() == es.len(),
        forall|i: int| 0 <= i < es.len() ==> #[trigger] elements_view(es)[i] == element_view(es[i]),
    decreases es.len(),
{
    if es.len() > 0 {
        lemma_elements_view(es.drop_last());
        assert(elements_view(es) == elements_view(es.drop_last()).push(element_view(es.last())));
        assert forall|i: int| 0 <= i < es.len() implies #[trigger] elements_view(es)[i] == element_view(es[i]) by {
            if i < es.len() - 1 {
                assert(es.drop_last()[i] == es[i]);
            }
        }
    }
}

/// The views of a list of types, position by position.
pub proof fn lemma_types_view(ts: Seq<TypeAnnotation>)
    ensures
        types_view(ts).len() == ts.len(),
        forall|i: int| 0 <= i < ts.len() ==> #[trigger] types_view(ts)[i] == ts[i]@,
    decreases ts.len(),
{
    if ts.len() > 0 {
        lemma_types_view(ts.drop_last());
        assert(types_view(ts) == types_view(ts.drop_last()).push(ts.last()@));
        assert forall|i: int| 0 <= i < ts.len() implies #[trigger] types_view(ts)[i] == ts[i]@ by {
            if i < ts.len() - 1 {
                assert(ts.drop_last()[i] == ts[i]);
            }
        }
    }
}


/// Whether every compound assignment in `s`, nested ones included, uses `+`, `-`, `*`, `/` or
/// `%`: the statements that the pretty printer and the interpreter take.
pub fn statement_is_well_formed(s: &Statement) -> (r: bool)
    ensures
        r == stmt_wf(s@),
    decreases s,
{
    match s {
        Statement::Assignment(a) => match &a.kind {
            AssignmentKind::Compound { op, expr } => match op {
                BinaryOp::Add | BinaryOp::Subtract | BinaryOp::Multiply | BinaryOp::Divide | BinaryOp::Modulo => true,
                _ => false,
            },
            _ => true,
        },
        Statement::If(i) => if_is_well_formed(i),
        Statement::While(w) => block_is_well_formed(&w.body),
        _ => true,
    }
}

/// Whether every statement of a block is well formed.
fn block_is_well_formed(ss: &Vec<Statement>) -> (r: bool)
    ensures
        r == stmts_wf(statements_view(ss@), 0),
    decreases ss,
{
    proof {
        lemma_statements_view(ss@);
        lemma_stmts_wf(statements_view(ss@), 0);
    }
    let mut i: usize = 0;
    while i < ss.len()
        invariant
            i <= ss@.len(),
            statements_view(ss@).len() == ss@.len(),
            forall|k: int| 0 <= k < ss@.len() ==> #[trigger] statements_view(ss@)[k] == ss@[k]@,
            forall|k: int| 0 <= k < i ==> stmt_wf(#[trigger] statements_view(ss@)[k]),
            stmts_wf(statements_view(ss@), 0) <==> forall|k: int| 0 <= k < ss@.len() ==> #[trigger] stmt_wf(statements_view(ss@)[k]),
        decreases ss@.len() - i,
    {
        proof {
            assert(decreases_to!(ss => ss@));
            assert(decreases_to!(ss@ => ss@[i as int]));
        }
        if !statement_is_well_formed(&ss[i]) {
            assert(!stmt_wf(statements_view(ss@)[i as int]));
            return false;
        }
        i = i + 1;
    }
    true
}

/// Whether both branches of an `if`, nested `else if`s included, are well formed.
fn if_is_well_formed(i: &IfStatement) -> (r: bool)
    ensures
        r == if_wf(if_view(*i)),
    decreases i,
{
    if !block_is_well_formed(&i.then_branch) {
        return false;
    }
    match &i.else_branch {
        None => true,
        Some(b) => match &**b {
            ElseBranch::If(n) => if_is_well_formed(n),
            ElseBranch::Block(bl) => block_is_well_formed(bl),
        },
    }
}

} // verus!
