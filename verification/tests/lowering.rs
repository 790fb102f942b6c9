use lang::ast::{Assignment, AssignmentKind, AssignmentTarget, BinaryOp, Expr, Literal, Statement, TypeAnnotation, VarDeclaration};
use lang::mir::{lower_to_mir, MirBinaryOp, MirExprKind, MirStatement, MirType, VarId};
use lang::parser::parse_program;

fn var_decl(name: &str, ty: &str, mutable: bool, value: Option<Expr>) -> Statement {
    Statement::Let(VarDeclaration::new(name.to_string(), Some(TypeAnnotation::new(ty.to_string())), mutable, value))
}

#[test]
fn lowers_simple_program() {
    let statements = vec![
        var_decl("counter", "int", true, Some(Expr::Literal(Literal::Integer(2)))),
        Statement::Assignment(Assignment::new(
            AssignmentTarget::Name("counter".into()),
            AssignmentKind::Simple(Expr::Binary {
                left: Box::new(Expr::Variable("counter".into())),
                op: BinaryOp::Add,
                right: Box::new(Expr::Literal(Literal::Integer(3))),
            }),
        )),
        Statement::Echo(Expr::Variable("counter".into())),
    ];

    let program = lower_to_mir(&statements).expect("lowering succeeds");
    assert_eq!(program.variables.len(), 1);
    match &program.body[0] {
        MirStatement::Let { .. } => {}
        other => panic!("unexpected statement: {other:?}"),
    }
}

#[test]
fn lowers_increments_and_loops() {
    let statements = parse_program("int! i = 0; while (i < 3) { i++; if (i == 2) { break } }").unwrap();
    let program = lower_to_mir(&statements).unwrap();
    assert_eq!(program.variables[0].ty, MirType::Int);
    assert!(program.variables[0].mutable);
    match &program.body[1] {
        MirStatement::While { body, .. } => match &body[0] {
            MirStatement::Assign { var, value } => {
                assert_eq!(*var, VarId(0));
                match &value.kind {
                    MirExprKind::Binary { op, right, .. } => {
                        assert_eq!(*op, MirBinaryOp::Add);
                        assert!(matches!(right.kind, MirExprKind::Int(1)));
                    }
                    other => panic!("unexpected expression: {other:?}"),
                }
            }
            other => panic!("unexpected statement: {other:?}"),
        },
        other => panic!("unexpected statement: {other:?}"),
    }
}

#[test]
fn lowering_reports_errors() {
    let err = lower_to_mir(&parse_program("break").unwrap()).unwrap_err();
    assert_eq!(err.to_display_string(), "Runtime error: `break` outside of loop");
    let err = lower_to_mir(&parse_program("let x = 1").unwrap()).unwrap_err();
    assert_eq!(err.to_display_string(), "Runtime error: explicit type annotation required for native compilation");
    let err = lower_to_mir(&parse_program("int x = 1; int x = 2").unwrap()).unwrap_err();
    assert_eq!(err.to_display_string(), "Type error: variable `x` declared more than once");
    let err = lower_to_mir(&parse_program("bool b = 1").unwrap()).unwrap_err();
    assert_eq!(err.to_display_string(), "Type error: type mismatch: expected Bool, got Int while lowering variable initializer");
    let err = lower_to_mir(&parse_program("str s = \"a\"").unwrap()).unwrap_err();
    assert_eq!(err.to_display_string(), "Runtime error: native backend does not support type `str`");
    let err = lower_to_mir(&parse_program("echo y").unwrap()).unwrap_err();
    assert_eq!(err.to_display_string(), "Runtime error: variable `y` referenced before declaration");
    let err = lower_to_mir(&parse_program("echo 1.5").unwrap()).unwrap_err();
    assert_eq!(err.to_display_string(), "Runtime error: native code generation does not yet support floating point literals");
    let err = lower_to_mir(&parse_program("bool b = true; b += 1").unwrap()).unwrap_err();
    assert_eq!(err.to_display_string(), "Type error: compound assignment currently supported only for integers");
    let err = lower_to_mir(&parse_program("echo 1 == true").unwrap()).unwrap_err();
    assert_eq!(err.to_display_string(), "Type error: equality comparison requires matching operand types");
}

fn check_expr(vars: &[lang::mir::MirVariable], e: &lang::mir::MirExpr) {
    match &e.kind {
        MirExprKind::Int(_) => assert_eq!(e.ty, MirType::Int),
        MirExprKind::Bool(_) => assert_eq!(e.ty, MirType::Bool),
        MirExprKind::Var(VarId(i)) => {
            assert!(*i < vars.len());
            assert_eq!(e.ty, vars[*i].ty);
        }
        MirExprKind::Unary { expr, .. } => check_expr(vars, expr),
        MirExprKind::Binary { left, right, .. } => {
            check_expr(vars, left);
            check_expr(vars, right);
        }
    }
}

fn check_body(vars: &[lang::mir::MirVariable], body: &[MirStatement], in_loop: bool) {
    for statement in body {
        match statement {
            MirStatement::Let { var, init } => {
                assert!(var.0 < vars.len());
                if let Some(e) = init {
                    check_expr(vars, e);
                    assert_eq!(e.ty, vars[var.0].ty);
                }
            }
            MirStatement::Assign { var, value } => {
                assert!(var.0 < vars.len());
                check_expr(vars, value);
                assert_eq!(value.ty, vars[var.0].ty);
            }
            MirStatement::Echo(e) => check_expr(vars, e),
            MirStatement::If { cond, then_body, else_body } => {
                check_expr(vars, cond);
                assert_eq!(cond.ty, MirType::Bool);
                check_body(vars, then_body, in_loop);
                check_body(vars, else_body, in_loop);
            }
            MirStatement::While { cond, body } => {
                check_expr(vars, cond);
                assert_eq!(cond.ty, MirType::Bool);
                check_body(vars, body, true);
            }
            MirStatement::Break | MirStatement::Continue => assert!(in_loop),
        }
    }
}

#[test]
fn lowered_program_is_well_formed() {
    let source = "int! n = 5; bool! seen = false; while (n > 0) { n -= 1; if (n == 2) { seen = true; continue } else if (n < 1) { break } else { echo n } }; echo seen";
    let statements = parse_program(source).unwrap();
    let program = lower_to_mir(&statements).unwrap();
    assert_eq!(program.variables.len(), 2);
    assert_eq!(program.variables[1].ty, MirType::Bool);
    assert_eq!(program.body.len(), statements.len());
    assert_ne!(program.variables[0].name, program.variables[1].name);
    check_body(&program.variables, &program.body, false);
}
