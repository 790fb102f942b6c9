use lang::ast::{
    ArrayElement, Assignment, AssignmentKind, AssignmentTarget, BinaryOp, ElseBranch, Expr, IfStatement,
    IndexTarget, Literal, Statement, TypeAnnotation, UnaryOp, VarDeclaration, WhileStatement,
};
use lang::interpreter::Interpreter;
use lang::value::{FloatOps, OrderTest};
struct HostFloats;

impl FloatOps for HostFloats {
    fn parse_literal(&self, text: &str) -> u64 {
        text.parse::<f64>().unwrap_or(0.0).to_bits()
    }
    fn float_add(&self, a: u64, b: u64) -> u64 {
        (f64::from_bits(a) + f64::from_bits(b)).to_bits()
    }
    fn float_sub(&self, a: u64, b: u64) -> u64 {
        (f64::from_bits(a) - f64::from_bits(b)).to_bits()
    }
    fn float_mul(&self, a: u64, b: u64) -> u64 {
        (f64::from_bits(a) * f64::from_bits(b)).to_bits()
    }
    fn float_div(&self, a: u64, b: u64) -> u64 {
        (f64::from_bits(a) / f64::from_bits(b)).to_bits()
    }
    fn float_neg(&self, a: u64) -> u64 {
        (-f64::from_bits(a)).to_bits()
    }
    fn float_increment(&self, a: u64) -> u64 {
        (f64::from_bits(a) + 1.0).to_bits()
    }
    fn float_decrement(&self, a: u64) -> u64 {
        (f64::from_bits(a) - 1.0).to_bits()
    }
    fn float_is_negligible(&self, a: u64) -> bool {
        f64::from_bits(a).abs() < f64::EPSILON
    }
    fn float_equal(&self, a: u64, b: u64) -> bool {
        f64::from_bits(a) == f64::from_bits(b)
    }
    fn float_order(&self, test: OrderTest, a: u64, b: u64) -> bool {
        compare(test, f64::from_bits(a), f64::from_bits(b))
    }
    fn int_order_as_float(&self, test: OrderTest, a: i64, b: i64) -> bool {
        compare(test, a as f64, b as f64)
    }
    fn float_text(&self, a: u64) -> String {
        f64::from_bits(a).to_string()
    }
}

fn compare(test: OrderTest, a: f64, b: f64) -> bool {
    match test {
        OrderTest::Less => a < b,
        OrderTest::LessEqual => a <= b,
        OrderTest::Greater => a > b,
        OrderTest::GreaterEqual => a >= b,
    }
}

fn decl(name: &str, ty: Option<&str>, mutable: bool, value: Option<Expr>) -> Statement {
    let annotation = ty.map(parse_type);
    Statement::Let(VarDeclaration::new(name.to_string(), annotation, mutable, value))
}

fn parse_type(spec: &str) -> TypeAnnotation {
    if let Some(start) = spec.find('<') {
        let end = spec.rfind('>').expect("generic type must close with `>` in tests");
        let base = &spec[..start];
        let inner = &spec[start + 1..end];
        let generics = if inner.trim().is_empty() {
            Vec::new()
        } else {
            inner.split(',').map(|part| parse_type(part.trim())).collect()
        };
        TypeAnnotation::with_generics(base.to_string(), generics)
    } else {
        TypeAnnotation::new(spec.to_string())
    }
}

fn echo(expr: Expr) -> Statement {
    Statement::Echo(expr)
}

fn lit_int(v: i64) -> Expr {
    Expr::Literal(Literal::Integer(v))
}

fn var(name: &str) -> Expr {
    Expr::Variable(name.to_string())
}

fn binary(left: Expr, op: BinaryOp, right: Expr) -> Expr {
    Expr::Binary { left: Box::new(left), op, right: Box::new(right) }
}

#[test]
fn interpreter_declare_and_use_integer() {
    let floats = HostFloats;
    let mut interpreter = Interpreter::new();
    interpreter.execute(decl("value", Some("int"), false, Some(lit_int(5))), &floats).unwrap();
    let result = interpreter.execute(echo(var("value")), &floats).unwrap();
    assert_eq!(result[0].expect_integer().unwrap(), 5);
}

#[test]
fn assign_into_array_literal() {
    let floats = HostFloats;
    let mut interpreter = Interpreter::new();
    interpreter
        .execute(
            decl(
                "arr",
                Some("arr<int>"),
                true,
                Some(Expr::Literal(Literal::Array(vec![ArrayElement::Value(lit_int(1))]))),
            ),
            &floats,
        )
        .unwrap();
    interpreter
        .execute(
            Statement::Assignment(Assignment::new(
                AssignmentTarget::Indexed { name: "arr".to_string(), indices: vec![IndexTarget::Append] },
                AssignmentKind::Simple(lit_int(2)),
            )),
            &floats,
        )
        .unwrap();
    let result = interpreter
        .execute(Statement::Echo(Expr::Index { target: Box::new(var("arr")), index: Box::new(lit_int(1)) }), &floats)
        .unwrap();
    assert_eq!(result[0].expect_integer().unwrap(), 2);
}

#[test]
fn if_statement_executes_branch() {
    let floats = HostFloats;
    let mut interpreter = Interpreter::new();
    let condition = Expr::Literal(Literal::Bool(true));
    let if_stmt = Statement::If(IfStatement::new(
        condition,
        vec![Statement::Echo(lit_int(1))],
        Some(Box::new(ElseBranch::Block(vec![Statement::Echo(lit_int(2))]))),
    ));
    let result = interpreter.execute(if_stmt, &floats).unwrap();
    assert_eq!(result[0].expect_integer().unwrap(), 1);
}

#[test]
fn while_loop_honors_break() {
    let floats = HostFloats;
    let mut interpreter = Interpreter::new();
    interpreter.execute(decl("i", Some("int"), true, Some(lit_int(0))), &floats).unwrap();
    let loop_stmt = Statement::While(WhileStatement::new(
        Expr::Literal(Literal::Bool(true)),
        vec![
            Statement::Echo(var("i")),
            Statement::Assignment(Assignment::new(
                AssignmentTarget::Name("i".to_string()),
                AssignmentKind::Compound { op: BinaryOp::Add, expr: lit_int(1) },
            )),
            Statement::If(IfStatement::new(binary(var("i"), BinaryOp::Greater, lit_int(1)), vec![Statement::Break], None)),
        ],
    ));
    let result = interpreter.execute(loop_stmt, &floats).unwrap();
    assert_eq!(result.len(), 2);
}

#[test]
fn reassign_mutable_variable() {
    let floats = HostFloats;
    let mut interpreter = Interpreter::new();
    interpreter.execute(decl("counter", Some("int"), true, Some(lit_int(1))), &floats).unwrap();
    interpreter
        .execute(
            Statement::Assignment(Assignment::new(
                AssignmentTarget::Name("counter".to_string()),
                AssignmentKind::Simple(binary(var("counter"), BinaryOp::Add, lit_int(1))),
            )),
            &floats,
        )
        .unwrap();
    let binding = interpreter.scope().get("counter").unwrap();
    assert_eq!(binding.value().unwrap().expect_integer().unwrap(), 2);
}

#[test]
fn arithmetic_and_comparison() {
    let floats = HostFloats;
    let mut interpreter = Interpreter::new();
    interpreter
        .execute(decl("threshold", Some("float"), false, Some(Expr::Literal(Literal::Float("2.4".to_string())))), &floats)
        .unwrap();
    let expr = binary(
        Expr::Literal(Literal::Float("5.0".to_string())),
        BinaryOp::Divide,
        Expr::Literal(Literal::Float("2.0".to_string())),
    );
    let comparison = binary(expr, BinaryOp::Greater, var("threshold"));
    let result = interpreter.execute(echo(comparison), &floats).unwrap();
    assert!(result[0].expect_bool().unwrap());
}

#[test]
fn logical_operations() {
    let floats = HostFloats;
    let mut interpreter = Interpreter::new();
    let condition = binary(Expr::Literal(Literal::Bool(true)), BinaryOp::And, binary(lit_int(3), BinaryOp::Less, lit_int(5)));
    let result = interpreter.execute(echo(condition), &floats).unwrap();
    assert!(result[0].expect_bool().unwrap());
}

#[test]
fn unary_negation() {
    let floats = HostFloats;
    let mut interpreter = Interpreter::new();
    let expr = Expr::Unary { op: UnaryOp::Negate, expr: Box::new(lit_int(5)) };
    let result = interpreter.execute(echo(expr), &floats).unwrap();
    assert_eq!(result[0].expect_integer().unwrap(), -5);
}

#[test]
fn string_concatenation() {
    let floats = HostFloats;
    let mut interpreter = Interpreter::new();
    interpreter
        .execute(decl("greeting", Some("str"), true, Some(Expr::Literal(Literal::Str("hi".to_string())))), &floats)
        .unwrap();
    interpreter
        .execute(
            Statement::Assignment(Assignment::new(
                AssignmentTarget::Name("greeting".to_string()),
                AssignmentKind::Simple(binary(var("greeting"), BinaryOp::Add, Expr::Literal(Literal::Str(" there".to_string())))),
            )),
            &floats,
        )
        .unwrap();
    let value = interpreter
        .scope()
        .get("greeting")
        .unwrap()
        .value()
        .unwrap()
        .expect_string()
        .unwrap()
        .to_string();
    assert_eq!(value, "hi there");
}

#[test]
fn declared_value_reads_back() {
    let floats = HostFloats;
    let mut interpreter = Interpreter::new();
    interpreter.execute(decl("x", Some("int"), false, Some(lit_int(41))), &floats).unwrap();
    let result = interpreter.execute(echo(var("x")), &floats).unwrap();
    assert_eq!(result[0].expect_integer().unwrap(), 41);
}

#[test]
fn untyped_declaration_refuses_a_value() {
    let floats = HostFloats;
    let mut interpreter = Interpreter::new();
    let err = interpreter.execute(decl("x", None, false, Some(lit_int(41))), &floats).unwrap_err();
    assert_eq!(err.to_display_string(), "Type error: type mismatch: expected mixed, got int");
    let err = interpreter.execute(echo(var("x")), &floats).unwrap_err();
    assert_eq!(err.to_display_string(), "Runtime error: variable `x` is not defined");
}

#[test]
fn untyped_arrays_take_any_element() {
    let floats = HostFloats;
    let mut interpreter = Interpreter::new();
    let source = lang::parser::parse_program("let a: arr = [1, \"k\" => true]; a[] = \"s\"").unwrap();
    for statement in source {
        interpreter.execute(statement, &floats).unwrap();
    }
}

#[test]
fn assigned_value_reads_back() {
    let floats = HostFloats;
    let mut interpreter = Interpreter::new();
    interpreter.execute(decl("x", Some("int"), true, Some(lit_int(1))), &floats).unwrap();
    interpreter
        .execute(
            Statement::Assignment(Assignment::new(AssignmentTarget::Name("x".to_string()), AssignmentKind::Simple(lit_int(9)))),
            &floats,
        )
        .unwrap();
    let result = interpreter.execute(echo(var("x")), &floats).unwrap();
    assert_eq!(result[0].expect_integer().unwrap(), 9);
}

#[test]
fn immutable_binding_refuses_assignment() {
    let floats = HostFloats;
    let mut interpreter = Interpreter::new();
    interpreter.execute(decl("x", Some("int"), false, Some(lit_int(1))), &floats).unwrap();
    let err = interpreter
        .execute(
            Statement::Assignment(Assignment::new(AssignmentTarget::Name("x".to_string()), AssignmentKind::Simple(lit_int(2)))),
            &floats,
        )
        .unwrap_err();
    assert_eq!(err.to_display_string(), "Type error: attempt to reassign immutable binding");
    let result = interpreter.execute(echo(var("x")), &floats).unwrap();
    assert_eq!(result[0].expect_integer().unwrap(), 1);
}

#[test]
fn false_loop_runs_no_iteration() {
    let floats = HostFloats;
    let mut interpreter = Interpreter::new();
    let stmt = Statement::While(WhileStatement::new(Expr::Literal(Literal::Bool(false)), vec![Statement::Echo(lit_int(1))]));
    let result = interpreter.execute(stmt, &floats).unwrap();
    assert!(result.is_empty());
}

#[test]
fn break_outside_loop_is_an_error() {
    let floats = HostFloats;
    let mut interpreter = Interpreter::new();
    let err = interpreter.execute(Statement::Break, &floats).unwrap_err();
    assert_eq!(err.to_display_string(), "Runtime error: `break` outside of loop");
    let err = interpreter.execute(Statement::Continue, &floats).unwrap_err();
    assert_eq!(err.to_display_string(), "Runtime error: `continue` outside of loop");
}

#[test]
fn integer_division_truncates_and_checks() {
    let floats = HostFloats;
    let mut interpreter = Interpreter::new();
    let result = interpreter.execute(echo(binary(lit_int(-7), BinaryOp::Divide, lit_int(2))), &floats).unwrap();
    assert_eq!(result[0].expect_integer().unwrap(), -3);
    let result = interpreter.execute(echo(binary(lit_int(-7), BinaryOp::Modulo, lit_int(2))), &floats).unwrap();
    assert_eq!(result[0].expect_integer().unwrap(), -1);
    let err = interpreter.execute(echo(binary(lit_int(1), BinaryOp::Divide, lit_int(0))), &floats).unwrap_err();
    assert_eq!(err.to_display_string(), "Runtime error: division by zero");
    let err = interpreter.execute(echo(binary(lit_int(1), BinaryOp::Modulo, lit_int(0))), &floats).unwrap_err();
    assert_eq!(err.to_display_string(), "Runtime error: modulo by zero");
    let err = interpreter.execute(echo(binary(lit_int(i64::MAX), BinaryOp::Add, lit_int(1))), &floats).unwrap_err();
    assert_eq!(err.to_display_string(), "Runtime error: integer overflow");
}

#[test]
fn type_errors_are_reported() {
    let floats = HostFloats;
    let mut interpreter = Interpreter::new();
    let err = interpreter
        .execute(echo(Expr::Unary { op: UnaryOp::Not, expr: Box::new(lit_int(1)) }), &floats)
        .unwrap_err();
    assert_eq!(err.to_display_string(), "Type error: unary `!` is only defined for boolean values");
    let err = interpreter.execute(decl("t", Some("nope"), false, None), &floats).unwrap_err();
    assert_eq!(err.to_display_string(), "Unknown type `nope`");
    let err = interpreter.execute(decl("u", Some("int<str>"), false, None), &floats).unwrap_err();
    assert_eq!(err.to_display_string(), "Type error: type `int` does not accept generic arguments");
    let err = interpreter.execute(decl("v", Some("int"), false, Some(Expr::Literal(Literal::Bool(true)))), &floats).unwrap_err();
    assert_eq!(err.to_display_string(), "Type error: type mismatch: expected int, got bool");
}

#[test]
fn nested_array_assignment() {
    let floats = HostFloats;
    let mut interpreter = Interpreter::new();
    let inner = Expr::Literal(Literal::Array(vec![ArrayElement::Value(lit_int(1))]));
    let outer = Expr::Literal(Literal::Array(vec![ArrayElement::KeyValue {
        key: Expr::Literal(Literal::Str("a".to_string())),
        value: inner,
    }]));
    interpreter.execute(decl("grid", Some("arr<str, arr<int>>"), true, Some(outer)), &floats).unwrap();
    interpreter
        .execute(
            Statement::Assignment(Assignment::new(
                AssignmentTarget::Indexed {
                    name: "grid".to_string(),
                    indices: vec![IndexTarget::Index(Expr::Literal(Literal::Str("a".to_string()))), IndexTarget::Append],
                },
                AssignmentKind::Simple(lit_int(7)),
            )),
            &floats,
        )
        .unwrap();
    let result = interpreter.execute(echo(var("grid")), &floats).unwrap();
    assert_eq!(result[0].display(&floats), "['a' => [0 => 1, 1 => 7]]");
    let err = interpreter
        .execute(
            Statement::Assignment(Assignment::new(
                AssignmentTarget::Indexed {
                    name: "grid".to_string(),
                    indices: vec![IndexTarget::Index(Expr::Literal(Literal::Str("b".to_string()))), IndexTarget::Append],
                },
                AssignmentKind::Simple(lit_int(7)),
            )),
            &floats,
        )
        .unwrap_err();
    assert_eq!(err.to_display_string(), "Runtime error: key 'b' does not exist for assignment");
}

#[test]
fn float_operations_give_floats_and_booleans() {
    let floats = HostFloats;
    let mut interpreter = Interpreter::new();
    interpreter.execute(decl("keep", Some("int"), false, Some(lit_int(7))), &floats).unwrap();
    let half = Expr::Literal(Literal::Float("0.5".to_string()));
    let sum = Expr::Binary { left: Box::new(half), op: BinaryOp::Multiply, right: Box::new(Expr::Literal(Literal::Float("3.0".to_string()))) };
    let out = interpreter.execute(echo(sum), &floats).unwrap();
    assert_eq!(out[0].expect_float().map(f64::from_bits).unwrap(), 1.5);
    let cmp = Expr::Binary {
        left: Box::new(Expr::Literal(Literal::Float("0.5".to_string()))),
        op: BinaryOp::Less,
        right: Box::new(Expr::Literal(Literal::Float("0.25".to_string()))),
    };
    let out = interpreter.execute(echo(cmp), &floats).unwrap();
    assert!(!out[0].expect_bool().unwrap());
    let zero = Expr::Binary {
        left: Box::new(Expr::Literal(Literal::Float("1.0".to_string()))),
        op: BinaryOp::Divide,
        right: Box::new(Expr::Literal(Literal::Float("0.0".to_string()))),
    };
    let err = interpreter.execute(echo(zero), &floats).unwrap_err();
    assert_eq!(err.to_display_string(), "Runtime error: division by zero");
    let out = interpreter.execute(echo(var("keep")), &floats).unwrap();
    assert_eq!(out[0].expect_integer().unwrap(), 7);
}
