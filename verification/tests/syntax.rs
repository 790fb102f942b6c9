use lang::ast::{
    Assignment, AssignmentKind, AssignmentTarget, BinaryOp, ElseBranch, Expr, IfStatement, IncrementOp, IndexTarget,
    Literal, Statement, TypeAnnotation, VarDeclaration,
};
use lang::ast::statement_is_well_formed;
use lang::lexer::lex;
use lang::parser::{parse_program, parse_statement};
use lang::pretty::format_statement;
use lang::repl::statement_complete;
use lang::token::{variant_text, TokenKind};
use lang::value::{FloatOps, OrderTest};
struct HostFloats;

impl FloatOps for HostFloats {
    fn parse_literal(&self, text: &str) -> u64 {
        text.parse::<f64>().unwrap_or(0.0).to_bits()
    }
    fn float_add(&self, a: u64, b: u64) -> u64 {
        (f64::from_bits(a) + f64::from_bits(b)).to_bits()
    }
    fn float_sub(&self, a: u64, b: u64) -> u64 {
        (f64::from_bits(a) - f64::from_bits(b)).to_bits()
    }
    fn float_mul(&self, a: u64, b: u64) -> u64 {
        (f64::from_bits(a) * f64::from_bits(b)).to_bits()
    }
    fn float_div(&self, a: u64, b: u64) -> u64 {
        (f64::from_bits(a) / f64::from_bits(b)).to_bits()
    }
    fn float_neg(&self, a: u64) -> u64 {
        (-f64::from_bits(a)).to_bits()
    }
    fn float_increment(&self, a: u64) -> u64 {
        (f64::from_bits(a) + 1.0).to_bits()
    }
    fn float_decrement(&self, a: u64) -> u64 {
        (f64::from_bits(a) - 1.0).to_bits()
    }
    fn float_is_negligible(&self, a: u64) -> bool {
        f64::from_bits(a).abs() < f64::EPSILON
    }
    fn float_equal(&self, a: u64, b: u64) -> bool {
        f64::from_bits(a) == f64::from_bits(b)
    }
    fn float_order(&self, test: OrderTest, a: u64, b: u64) -> bool {
        compare(test, f64::from_bits(a), f64::from_bits(b))
    }
    fn int_order_as_float(&self, test: OrderTest, a: i64, b: i64) -> bool {
        compare(test, a as f64, b as f64)
    }
    fn float_text(&self, a: u64) -> String {
        f64::from_bits(a).to_string()
    }
}

fn compare(test: OrderTest, a: f64, b: f64) -> bool {
    match test {
        OrderTest::Less => a < b,
        OrderTest::LessEqual => a <= b,
        OrderTest::Greater => a > b,
        OrderTest::GreaterEqual => a >= b,
    }
}

#[test]
fn lexes_mutable_variable_declaration() {
    let tokens = lex("int! value = 10;").unwrap();
    assert_eq!(tokens.len(), 6);
    assert!(matches!(tokens[0].kind, TokenKind::Identifier(ref name) if name == "int"));
    assert!(matches!(tokens[1].kind, TokenKind::Bang));
    assert!(matches!(tokens[2].kind, TokenKind::Identifier(ref name) if name == "value"));
    assert!(matches!(tokens[3].kind, TokenKind::Equals));
    assert!(matches!(tokens[4].kind, TokenKind::IntegerLiteral(10)));
    assert!(matches!(tokens[5].kind, TokenKind::Semicolon));
}

#[test]
fn lexes_expression_tokens() {
    let tokens = lex("a = (b + 3.5) * -2 != 0 && true;").unwrap();
    assert!(tokens.iter().any(|t| matches!(t.kind, TokenKind::FloatLiteral(_))));
    assert!(tokens.iter().any(|t| matches!(t.kind, TokenKind::DoubleAmpersand)));
    assert!(tokens.iter().any(|t| matches!(t.kind, TokenKind::BangEqual)));
    assert!(tokens.iter().any(|t| matches!(t.kind, TokenKind::BoolLiteral(true))));
}

#[test]
fn lexer_reports_positions_and_errors() {
    let tokens = lex("  x <= 1").unwrap();
    assert_eq!(tokens[0].position, 2);
    assert!(matches!(tokens[1].kind, TokenKind::LessEqual));
    assert_eq!(tokens[2].position, 7);
    let err = lex("a & b").unwrap_err();
    assert_eq!(err.message(), "unexpected character `&` at position 2; did you mean `&&`?");
    let err = lex("x = 1.").unwrap_err();
    assert_eq!(err.message(), "invalid float literal `1.` at position 4");
    let err = lex("\"open").unwrap_err();
    assert_eq!(err.message(), "unterminated string literal starting at position 0");
    let err = lex("99999999999999999999").unwrap_err();
    assert_eq!(
        err.message(),
        "failed to parse integer literal `99999999999999999999` at position 0: number too large to fit in target type"
    );
    let tokens = lex("\"a\\\"b\" ECHO While").unwrap();
    assert!(matches!(tokens[0].kind, TokenKind::StringLiteral(ref s) if s == "a\"b"));
    assert!(matches!(tokens[1].kind, TokenKind::Echo));
    assert!(matches!(tokens[2].kind, TokenKind::While));
}

#[test]
fn parses_echo_statement() {
    let stmt = parse_statement("echo 1 + 2").unwrap();
    assert!(matches!(stmt, Statement::Echo(_)));
}

#[test]
fn parses_let_declaration_with_type() {
    let stmt = parse_statement("let fix value: int = 10").unwrap();
    match stmt {
        Statement::Let(decl) => {
            assert_eq!(decl.name, "value");
            assert!(!decl.mutable);
            assert_eq!(decl.ty.unwrap().name, "int");
        }
        other => panic!("unexpected statement: {other:?}"),
    }
}

#[test]
fn parses_assignment_with_index() {
    let stmt = parse_statement("array[0] = 42").unwrap();
    match stmt {
        Statement::Assignment(Assignment { target, .. }) => match target {
            AssignmentTarget::Indexed { name, indices } => {
                assert_eq!(name, "array");
                assert_eq!(indices.len(), 1);
            }
            _ => panic!("expected indexed target"),
        },
        other => panic!("unexpected statement: {other:?}"),
    }
}

#[test]
fn parses_if_else_statement() {
    let source = "if (x > 1) { echo 1 } else { echo 2 }";
    let stmt = parse_statement(source).unwrap();
    assert!(matches!(stmt, Statement::If(_)));
}

#[test]
fn parses_array_literal() {
    let stmt = parse_statement("echo [1, 2 => 3]").unwrap();
    match stmt {
        Statement::Echo(Expr::Literal(Literal::Array(elements))) => {
            assert_eq!(elements.len(), 2);
        }
        other => panic!("unexpected statement: {other:?}"),
    }
}

#[test]
fn parses_typed_declarations() {
    let stmt = parse_statement("int value = 1;").unwrap();
    assert_eq!(
        stmt,
        Statement::Let(VarDeclaration::new(
            "value".to_string(),
            Some(TypeAnnotation::new("int".to_string())),
            false,
            Some(Expr::Literal(Literal::Integer(1))),
        ))
    );
    let stmt = parse_statement("Arr<STR, int>! xs").unwrap();
    assert_eq!(
        stmt,
        Statement::Let(VarDeclaration::new(
            "xs".to_string(),
            Some(TypeAnnotation::with_generics(
                "arr".to_string(),
                vec![TypeAnnotation::new("str".to_string()), TypeAnnotation::new("int".to_string())],
            )),
            true,
            None,
        ))
    );
}

#[test]
fn parses_with_precedence() {
    let stmt = parse_statement("echo 1 + 2 * 3 == 7 || !b").unwrap();
    let expected = Expr::Binary {
        left: Box::new(Expr::Binary {
            left: Box::new(Expr::Binary {
                left: Box::new(Expr::Literal(Literal::Integer(1))),
                op: BinaryOp::Add,
                right: Box::new(Expr::Binary {
                    left: Box::new(Expr::Literal(Literal::Integer(2))),
                    op: BinaryOp::Multiply,
                    right: Box::new(Expr::Literal(Literal::Integer(3))),
                }),
            }),
            op: BinaryOp::Equal,
            right: Box::new(Expr::Literal(Literal::Integer(7))),
        }),
        op: BinaryOp::Or,
        right: Box::new(Expr::Unary { op: lang::ast::UnaryOp::Not, expr: Box::new(Expr::Variable("b".to_string())) }),
    };
    assert_eq!(stmt, Statement::Echo(expected));
}

#[test]
fn parses_assignment_kinds() {
    assert_eq!(
        parse_statement("n++").unwrap(),
        Statement::Assignment(Assignment::new(
            AssignmentTarget::Name("n".to_string()),
            AssignmentKind::Increment(IncrementOp::Increment),
        ))
    );
    assert_eq!(
        parse_statement("n %= 2").unwrap(),
        Statement::Assignment(Assignment::new(
            AssignmentTarget::Name("n".to_string()),
            AssignmentKind::Compound { op: BinaryOp::Modulo, expr: Expr::Literal(Literal::Integer(2)) },
        ))
    );
    assert_eq!(
        parse_statement("xs[] = 1").unwrap(),
        Statement::Assignment(Assignment::new(
            AssignmentTarget::Indexed { name: "xs".to_string(), indices: vec![IndexTarget::Append] },
            AssignmentKind::Simple(Expr::Literal(Literal::Integer(1))),
        ))
    );
}

#[test]
fn parse_errors_carry_messages() {
    let err = parse_statement("xs[0] += 1").unwrap_err();
    assert_eq!(err.message(), "compound and increment assignments are not supported for indexed targets");
    let err = parse_statement("echo 1 2").unwrap_err();
    assert_eq!(err.message(), "unexpected tokens after end of statement");
    let err = parse_statement("echo (1").unwrap_err();
    assert_eq!(err.message(), "expected token RParen, found None");
    let err = parse_statement(")").unwrap_err();
    assert_eq!(err.message(), "unexpected token Some(RParen) at start of statement");
    let err = parse_statement("echo x[]").unwrap_err();
    assert_eq!(err.message(), "empty index accessor is only allowed in assignment context");
    let err = parse_statement("let \"s\" = 1").unwrap_err();
    assert_eq!(err.message(), "string literal cannot appear where identifier is expected");
    let err = parse_statement("while (true) { echo 1").unwrap_err();
    assert_eq!(err.message(), "unterminated block");
    let err = parse_statement("x = )").unwrap_err();
    assert_eq!(err.message(), "unexpected token RParen in expression");
    let err = parse_statement("x = y z").unwrap_err();
    assert_eq!(err.message(), "unexpected tokens after end of statement");
    let err = parse_statement("echo (1 x").unwrap_err();
    assert_eq!(err.message(), "expected token RParen, found Some(Identifier(\"x\"))");
}

#[test]
fn parses_programs() {
    let statements = parse_program("int a = 1; echo a;\n\nwhile (false) { break; }").unwrap();
    assert_eq!(statements.len(), 3);
    assert!(parse_program(";;").unwrap().is_empty());
}

#[test]
fn formats_variable_declaration() {
    let floats = HostFloats;
    let decl = VarDeclaration::new(
        "count".to_string(),
        Some(TypeAnnotation::new("int".to_string())),
        true,
        Some(Expr::Literal(Literal::Integer(1))),
    );
    let statement = Statement::Let(decl);
    assert_eq!(format_statement(&statement, &floats), "let count: int = 1");
}

#[test]
fn formats_if_else() {
    let floats = HostFloats;
    let stmt = Statement::If(IfStatement::new(
        Expr::Literal(Literal::Bool(true)),
        vec![Statement::Echo(Expr::Literal(Literal::Integer(1)))],
        Some(Box::new(ElseBranch::Block(vec![Statement::Echo(Expr::Literal(Literal::Integer(2)))]))),
    ));
    let formatted = format_statement(&stmt, &floats);
    assert!(formatted.contains("if"));
    assert!(formatted.contains("else"));
    assert_eq!(formatted, "if (true) {\n  echo 1\n} else {\n  echo 2\n}");
}

#[test]
fn formats_expressions_and_targets() {
    let floats = HostFloats;
    let stmt = parse_statement("let fix s = -(a + 1) * [1, \"k\" => 2.50]").unwrap();
    assert_eq!(format_statement(&stmt, &floats), "let fix s = (-((a + 1)) * [1, \"k\" => 2.5])");
    let stmt = parse_statement("grid[\"a\"][] = \"say \\\"hi\\\"\"").unwrap();
    assert_eq!(format_statement(&stmt, &floats), "grid[\"a\"][] = \"say \\\"hi\\\"\"");
    let stmt = parse_statement("while (i < 3) { i -= 1; continue }").unwrap();
    assert_eq!(format_statement(&stmt, &floats), "while ((i < 3)) {\n  i -= 1\n  continue\n}");
    let stmt = parse_statement("arr<str, int> m").unwrap();
    assert_eq!(format_statement(&stmt, &floats), "let fix m: arr<str, int>");
}

#[test]
fn completes_statements() {
    assert!(statement_complete("echo 1\n"));
    assert!(!statement_complete("if (x) {\n"));
    assert!(!statement_complete("echo \"(\n"));
    assert!(statement_complete("echo \"(\"\n"));
    assert!(statement_complete(")\n"));
    assert!(!statement_complete("   \n"));
    assert!(!statement_complete("echo 'it\n"));
    assert!(statement_complete("echo \"a\\\"b\"\n"));
}

#[test]
fn token_kinds_describe_their_payloads() {
    assert_eq!(variant_text("Name", "payload"), "Name(payload)");
    assert_eq!(TokenKind::Identifier("abc".to_string()).describe(), "Identifier(\"abc\")");
    assert_eq!(
        TokenKind::StringLiteral("say \"hi\"\n".to_string()).describe(),
        "StringLiteral(\"say \\\"hi\\\"\\n\")"
    );
    assert_eq!(TokenKind::IntegerLiteral(-7).describe(), "IntegerLiteral(-7)");
    assert_eq!(TokenKind::Semicolon.describe(), "Semicolon");
}

#[test]
fn unexpected_tokens_are_named_in_parse_errors() {
    let err = parse_statement("if (x > 1 { echo 1 }").unwrap_err();
    assert_eq!(err.message(), "expected token RParen, found Some(LBrace)");
}

#[test]
fn well_formedness_checks_compound_operators_at_every_depth() {
    for statement in parse_program("int! x = 1; while (x < 3) { if (x == 1) { x += 2 } else { x %= 2 } }").unwrap() {
        assert!(statement_is_well_formed(&statement));
    }
    let bad = Statement::Assignment(Assignment::new(
        AssignmentTarget::Name("x".to_string()),
        AssignmentKind::Compound { op: BinaryOp::And, expr: Expr::Literal(Literal::Bool(true)) },
    ));
    assert!(!statement_is_well_formed(&bad));
    let nested = Statement::If(IfStatement::new(
        Expr::Literal(Literal::Bool(true)),
        vec![],
        Some(Box::new(ElseBranch::Block(vec![bad]))),
    ));
    assert!(!statement_is_well_formed(&nested));
}

#[test]
fn token_positions_increase_and_start_each_lexeme() {
    let source = "  \"é y\" <=\n\tfoo12 3.5";
    let tokens = lex(source).unwrap();
    let positions: Vec<usize> = tokens.iter().map(|t| t.position).collect();
    assert_eq!(positions, vec![2, 9, 13, 19]);
    for pair in positions.windows(2) {
        assert!(pair[0] < pair[1]);
    }
    for p in positions {
        assert!(!source[p..].starts_with(char::is_whitespace));
    }
}

#[test]
fn format_source_writes_each_statement_on_a_line() {
    let floats = HostFloats;
    let text = lang::codegen::format_source("int x = 1; echo x + 2.50", &floats).unwrap();
    assert_eq!(text, "let fix x: int = 1\necho (x + 2.5)");
    let err = lang::codegen::format_source("echo (", &floats).unwrap_err();
    assert!(err.to_display_string().starts_with("Parse error: "));
}
