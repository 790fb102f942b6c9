use lang::repl::{Repl, ReplStep};
use lang::value::{FloatOps, OrderTest};

struct HostFloats;

impl FloatOps for HostFloats {
    fn parse_literal(&self, text: &str) -> u64 {
        text.parse::<f64>().unwrap_or(0.0).to_bits()
    }
    fn float_add(&self, a: u64, b: u64) -> u64 {
        (f64::from_bits(a) + f64::from_bits(b)).to_bits()
    }
    fn float_sub(&self, a: u64, b: u64) -> u64 {
        (f64::from_bits(a) - f64::from_bits(b)).to_bits()
    }
    fn float_mul(&self, a: u64, b: u64) -> u64 {
        (f64::from_bits(a) * f64::from_bits(b)).to_bits()
    }
    fn float_div(&self, a: u64, b: u64) -> u64 {
        (f64::from_bits(a) / f64::from_bits(b)).to_bits()
    }
    fn float_neg(&self, a: u64) -> u64 {
        (-f64::from_bits(a)).to_bits()
    }
    fn float_increment(&self, a: u64) -> u64 {
        (f64::from_bits(a) + 1.0).to_bits()
    }
    fn float_decrement(&self, a: u64) -> u64 {
        (f64::from_bits(a) - 1.0).to_bits()
    }
    fn float_is_negligible(&self, a: u64) -> bool {
        f64::from_bits(a).abs() < f64::EPSILON
    }
    fn float_equal(&self, a: u64, b: u64) -> bool {
        f64::from_bits(a) == f64::from_bits(b)
    }
    fn float_order(&self, test: OrderTest, a: u64, b: u64) -> bool {
        compare(test, f64::from_bits(a), f64::from_bits(b))
    }
    fn int_order_as_float(&self, test: OrderTest, a: i64, b: i64) -> bool {
        compare(test, a as f64, b as f64)
    }
    fn float_text(&self, a: u64) -> String {
        f64::from_bits(a).to_string()
    }
}

fn compare(test: OrderTest, a: f64, b: f64) -> bool {
    match test {
        OrderTest::Less => a < b,
        OrderTest::LessEqual => a <= b,
        OrderTest::Greater => a > b,
        OrderTest::GreaterEqual => a >= b,
    }
}

/// Runs a session on the script's lines followed by `:quit`, as a terminal would, and splits what
/// it printed at the prompts.
fn run_script(script: &str) -> Vec<String> {
    let mut input = script.trim().to_string();
    if !input.ends_with('\n') {
        input.push('\n');
    }
    input.push_str(":quit\n");

    let floats = HostFloats;
    let mut repl = Repl::new();
    let mut stdout = String::new();
    for line in input.split_inclusive('\n') {
        stdout.push_str(repl.prompt());
        match repl.feed_line(line, &floats) {
            ReplStep::Quit => break,
            ReplStep::Print(lines) => {
                for text in lines {
                    stdout.push_str(&text);
                    stdout.push('\n');
                }
            }
        }
    }

    stdout
        .split("lang>")
        .filter_map(|segment| {
            let trimmed = segment.trim();
            if trimmed.is_empty() {
                return None;
            }
            if trimmed.chars().all(|ch| ch == '.' || ch.is_whitespace()) {
                return None;
            }
            Some(trimmed.to_string())
        })
        .collect()
}

#[test]
fn evaluates_boolean_logic() {
    let output = run_script("let flag: bool = true\necho flag && false");
    assert_eq!(output, vec!["false".to_string()]);
}

#[test]
fn compares_numeric_values() {
    let output = run_script("let lhs: int = 4\nlet rhs: int = 7\necho lhs < rhs && rhs == 7");
    assert_eq!(output, vec!["true".to_string()]);
}

#[test]
fn prevents_reassigning_immutable_variables() {
    let output = run_script("int value = 1;\nvalue = 2;");
    assert_eq!(
        output,
        vec!["error: Type error: attempt to reassign immutable binding".to_string()],
    );
}

#[test]
fn surfaces_type_mismatches() {
    let output = run_script("int value = 1;\necho value == \"1\";");
    assert_eq!(
        output,
        vec!["error: Type error: equality comparison requires matching operand types".to_string()],
    );
}

#[test]
fn reports_missing_bindings() {
    let output = run_script("echo missing;");
    assert_eq!(
        output,
        vec!["error: Runtime error: variable `missing` is not defined".to_string()],
    );
}

#[test]
fn echoes_integer_arithmetic() {
    let output = run_script("let counter: int = 10\necho counter / 2 + 3");
    assert_eq!(output, vec!["8".to_string()]);
}

#[test]
fn reassigns_mutable_binding() {
    let output = run_script("let total: int = 1\ntotal = total + 4\necho total");
    assert_eq!(output, vec!["5".to_string()]);
}

#[test]
fn handles_float_operations() {
    let output = run_script("let weight: float = 4.5\necho weight / 2.0");
    assert_eq!(output, vec!["2.25".to_string()]);
}

#[test]
fn concatenates_strings() {
    let output = run_script("str greeting = \"hi\";\necho greeting + \" there\";");
    assert_eq!(output, vec!["hi there".to_string()]);
}

#[test]
fn echoes_string_literal() {
    let output = run_script("echo \"plain text\";");
    assert_eq!(output, vec!["plain text".to_string()]);
}

#[test]
fn gathers_lines_until_block_closes() {
    let output = run_script("let fix n: int = 3\nif (n > 2) {\necho \"big\"\n} else {\necho \"small\"\n}");
    assert_eq!(output, vec!["....> ....> ....> ....> big".to_string()]);
}

#[test]
fn reports_parse_errors() {
    let output = run_script("echo (1 + 2");
    assert_eq!(output, vec!["....>".to_string()]);
    let output = run_script("echo 1 +");
    assert_eq!(output, vec!["parse error: unexpected end of input".to_string()]);
}

#[test]
fn runs_while_loops() {
    let output = run_script("int! i = 0\nwhile (i < 3) { echo i; i += 1 }\necho i");
    assert_eq!(
        output,
        vec!["0\n1\n2".to_string(), "3".to_string()],
    );
}

#[test]
fn keeps_effects_before_an_error() {
    let output = run_script("int! i = 0\nwhile (true) { i++; if (i > 2) { echo i + \"x\" } }\necho i");
    assert_eq!(
        output,
        vec![
            "error: Type error: `+` expects matching numeric types or strings".to_string(),
            "3".to_string(),
        ],
    );
}

#[test]
fn quits_on_exit_command() {
    let floats = HostFloats;
    let mut repl = Repl::new();
    assert_eq!(repl.prompt(), "lang> ");
    match repl.feed_line("  \n", &floats) {
        ReplStep::Print(lines) => assert!(lines.is_empty()),
        ReplStep::Quit => panic!("a blank line does not quit"),
    }
    match repl.feed_line("if (true) {\n", &floats) {
        ReplStep::Print(lines) => assert!(lines.is_empty()),
        ReplStep::Quit => panic!("an open block does not quit"),
    }
    assert_eq!(repl.prompt(), "....> ");
    match repl.feed_line("}\n", &floats) {
        ReplStep::Print(lines) => assert!(lines.is_empty()),
        ReplStep::Quit => panic!("a closed block does not quit"),
    }
    assert_eq!(repl.prompt(), "lang> ");
    assert!(matches!(repl.feed_line(":exit\r\n", &floats), ReplStep::Quit));
}

#[test]
fn float_statements_keep_the_session_going() {
    let floats = HostFloats;
    let mut repl = Repl::new();
    assert!(matches!(repl.feed_line("let n: int = 4\n", &floats), ReplStep::Print(lines) if lines.is_empty()));
    match repl.feed_line("echo 1.5 + 2.25\n", &floats) {
        ReplStep::Print(lines) => assert_eq!(lines, vec!["3.75".to_string()]),
        ReplStep::Quit => panic!("session ended"),
    }
    match repl.feed_line("echo 1.5 + 2\n", &floats) {
        ReplStep::Print(lines) => assert_eq!(lines, vec!["error: Type error: `+` expects matching numeric types or strings".to_string()]),
        ReplStep::Quit => panic!("session ended"),
    }
    match repl.feed_line("echo n\n", &floats) {
        ReplStep::Print(lines) => assert_eq!(lines, vec!["4".to_string()]),
        ReplStep::Quit => panic!("session ended"),
    }
}
