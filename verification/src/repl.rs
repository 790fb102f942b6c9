//! The interactive session: it gathers input lines until a statement is complete, runs the
//! statement and says what to print. Reading lines and printing is left to the caller.
use vstd::prelude::*;
use crate::ast::{Statement, StmtV, lemma_statements_view, lemma_stmts_wf, statements_view};
use crate::diagnostics::{LangError, LangErrorV, lang_error_text};
use crate::interpreter::Interpreter;
use crate::lexer::{is_ws, is_ws_char};
use crate::parser::{law_parsed_program_wf, law_parsed_statement_wf, parse_program, parse_program_spec, parse_statement, parse_statement_spec};
use crate::semantics::{Env, Registry, block_names, lemma_block_names, lemma_same_outside_trans, same_outside, stmt_names, execution, lemma_wf_stmt_ok, values_view};
use crate::scope::BindingV;
use crate::types::builtin_types;
use crate::text::{chars_of, owned, push_char, push_str};
use crate::value::{FloatOps, Value, ValueV, has_float, shows_value, value_text};

verus! {

/// `s` without the line ends (`\r` and `\n`) at its end.
pub open spec fn strip_line_end(s: Seq<char>) -> Seq<char>
    decreases s.len(),
{
    if s.len() > 0 && (s.last() == '\r' || s.last() == '\n') {
        strip_line_end(s.drop_last())
    } else {
        s
    }
}

/// The position of the first character at or after `i` that is not white space, or the length.
pub open spec fn first_non_ws(s: Seq<char>, i: int) -> int
    decreases s.len() - i,
{
    if i < 0 || i >= s.len() {
        s.len() as int
    } else if !is_ws(s[i]) {
        i
    } else {
        first_non_ws(s, i + 1)
    }
}

/// The position just after the last character before `j` that is not white space, or 0.
pub open spec fn end_non_ws(s: Seq<char>, j: int) -> int
    decreases j,
{
    if j <= 0 || j > s.len() {
        0
    } else if !is_ws(s[j - 1]) {
        j
    } else {
        end_non_ws(s, j - 1)
    }
}

/// `s` without white space at either end.
pub open spec fn trim(s: Seq<char>) -> Seq<char> {
    let a = first_non_ws(s, 0);
    let b = end_non_ws(s, s.len() as int);
    if a >= b {
        Seq::empty()
    } else {
        s.subrange(a, b)
    }
}

/// Scanning a buffer from position `i` with the counts of open parentheses, braces and brackets
/// so far and whether a single- or double-quoted string is open: whether the buffer holds a
/// complete statement. A backslash inside a string escapes the next character; a closing
/// delimiter without its opening one counts as complete.
pub open spec fn complete_from(s: Seq<char>, i: int, paren: int, brace: int, bracket: int, single: bool, double: bool) -> bool
    decreases s.len() + 1 - i,
{
    if i < 0 || i >= s.len() {
        !single && !double && paren == 0 && brace == 0 && bracket == 0 && trim(s).len() > 0
    } else {
        let c = s[i];
        let code = !single && !double;
        let next = if c == '\\' && (single || double) { i + 2 } else { i + 1 };
        let single2 = if c == '\'' && !double { !single } else { single };
        let double2 = if c == '"' && !single { !double } else { double };
        let paren2 = if code && c == '(' { paren + 1 } else if code && c == ')' { paren - 1 } else { paren };
        let brace2 = if code && c == '{' { brace + 1 } else if code && c == '}' { brace - 1 } else { brace };
        let bracket2 = if code && c == '[' { bracket + 1 } else if code && c == ']' { bracket - 1 } else { bracket };
        if paren2 < 0 || brace2 < 0 || bracket2 < 0 {
            true
        } else {
            complete_from(s, next, paren2, brace2, bracket2, single2, double2)
        }
    }
}

/// Whether a buffer holds a complete statement: every string closed, every parenthesis, brace
/// and bracket closed, and something other than white space in it.
pub open spec fn is_complete(s: Seq<char>) -> bool {
    complete_from(s, 0, 0, 0, 0, false, false)
}

/// The positions of `s` that `trim` keeps.
fn trim_bounds(cs: &Vec<char>) -> (r: (usize, usize))
    ensures
        r.0 as int == first_non_ws(cs@, 0),
        r.1 as int == end_non_ws(cs@, cs@.len() as int),
        r.0 <= cs@.len(),
        r.1 <= cs@.len(),
{
    let mut a: usize = 0;
    while a < cs.len() && is_ws_char(cs[a])
        invariant
            a <= cs@.len(),
            first_non_ws(cs@, 0) == first_non_ws(cs@, a as int),
        decreases cs@.len() - a,
    {
        a = a + 1;
    }
    let mut b: usize = cs.len();
    while b > 0 && is_ws_char(cs[b - 1])
        invariant
            b <= cs@.len(),
            end_non_ws(cs@, cs@.len() as int) == end_non_ws(cs@, b as int),
        decreases b,
    {
        b = b - 1;
    }
    (a, b)
}

/// The characters `cs[from..to]` as a string.
fn string_of_chars(cs: &Vec<char>, from: usize, to: usize) -> (r: String)
    requires
        from <= to <= cs@.len(),
    ensures
        r@ == cs@.subrange(from as int, to as int),
{
    let mut out = String::new();
    let mut k = from;
    while k < to
        invariant
            from <= k <= to <= cs@.len(),
            out@ == cs@.subrange(from as int, k as int),
        decreases to - k,
    {
        push_char(&mut out, cs[k]);
        assert(cs@.subrange(from as int, k + 1) =~= cs@.subrange(from as int, k as int).push(cs@[k as int]));
        k = k + 1;
    }
    out
}

/// `s` without white space at either end.
pub fn trim_text(s: &str) -> (r: String)
    ensures
        r@ == trim(s@),
{
    let cs = chars_of(s);
    let (a, b) = trim_bounds(&cs);
    if a >= b {
        String::new()
    } else {
        string_of_chars(&cs, a, b)
    }
}

/// `s` without the line ends at its end.
pub fn strip_line_end_text(s: &str) -> (r: String)
    ensures
        r@ == strip_line_end(s@),
{
    let cs = chars_of(s);
    let mut n = cs.len();
    assert(cs@.subrange(0, cs@.len() as int) =~= cs@);
    while n > 0 && (cs[n - 1] == '\r' || cs[n - 1] == '\n')
        invariant
            n <= cs@.len(),
            strip_line_end(cs@) == strip_line_end(cs@.subrange(0, n as int)),
        decreases n,
    {
        assert(cs@.subrange(0, n as int).drop_last() =~= cs@.subrange(0, n - 1));
        n = n - 1;
    }
    assert(cs@.subrange(0, cs@.len() as int) =~= cs@);
    string_of_chars(&cs, 0, n)
}

/// Whether a buffer holds a complete statement.
pub fn statement_complete(buffer: &str) -> (r: bool)
    ensures
        r == is_complete(buffer@),
{
    let cs = chars_of(buffer);
    let mut paren: usize = 0;
    let mut brace: usize = 0;
    let mut bracket: usize = 0;
    let mut single = false;
    let mut double = false;
    let mut i: usize = 0;
    while i < cs.len()
        invariant
            cs@ == buffer@,
            i <= cs@.len(),
            paren <= i,
            brace <= i,
            bracket <= i,
            is_complete(buffer@) == complete_from(cs@, i as int, paren as int, brace as int, bracket as int, single, double),
        decreases cs@.len() - i,
    {
        let c = cs[i];
        let ghost (p0, b0, k0, s0, d0) = (paren as int, brace as int, bracket as int, single, double);
        let code = !single && !double;
        let next = if c == '\\' && (single || double) {
            if i + 1 < cs.len() { i + 2 } else { cs.len() }
        } else {
            i + 1
        };
        if c == '\'' && !double {
            single = !single;
        } else if c == '"' && !single {
            double = !double;
        } else if code && c == '(' {
            paren = paren + 1;
        } else if code && c == ')' {
            if paren == 0 {
                return true;
            }
            paren = paren - 1;
        } else if code && c == '{' {
            brace = brace + 1;
        } else if code && c == '}' {
            if brace == 0 {
                return true;
            }
            brace = brace - 1;
        } else if code && c == '[' {
            bracket = bracket + 1;
        } else if code && c == ']' {
            if bracket == 0 {
                return true;
            }
            bracket = bracket - 1;
        }
        proof {
            let spec_next = if c == '\\' && (s0 || d0) { i + 2 } else { i + 1 };
            assert(complete_from(cs@, i as int, p0, b0, k0, s0, d0)
                == complete_from(cs@, spec_next, paren as int, brace as int, bracket as int, single, double));
            if spec_next != next as int {
                assert(complete_from(cs@, spec_next, paren as int, brace as int, bracket as int, single, double)
                    == complete_from(cs@, next as int, paren as int, brace as int, bracket as int, single, double));
            }
        }
        i = next;
    }
    if single || double || paren != 0 || brace != 0 || bracket != 0 {
        return false;
    }
    let (a, b) = trim_bounds(&cs);
    a < b
}

/// The text that `echo` prints for a value; floats are written by `floats`.
pub fn echo<F: FloatOps>(value: &Value, floats: &F) -> (r: String)
    ensures
        !has_float(value@) ==> r@ == value_text(value@),
        shows_value(r@, value@),
{
    value.display(floats)
}

/// What a line does to a session whose pending input is `buffer`: nothing (a blank line with
/// nothing pending), quit (`:quit` or `:exit` with nothing pending), wait for more input, or run
/// the completed source.
pub enum LineEffect {
    Skip,
    Quit,
    Pending(Seq<char>),
    Run(Seq<char>),
}

/// The effect of a line.
pub open spec fn line_effect(buffer: Seq<char>, line: Seq<char>) -> LineEffect {
    let raw = strip_line_end(line);
    if buffer.len() == 0 && trim(raw).len() == 0 {
        LineEffect::Skip
    } else if buffer.len() == 0 && (trim(raw) == ":quit"@ || trim(raw) == ":exit"@) {
        LineEffect::Quit
    } else {
        let pending = buffer + raw + "\n"@;
        if !is_complete(pending) {
            LineEffect::Pending(pending)
        } else {
            LineEffect::Run(trim(pending))
        }
    }
}

/// Whether printed lines are the values' texts, for every value without a float.
pub open spec fn prints_values(lines: Seq<String>, vals: Seq<ValueV>) -> bool {
    &&& lines.len() == vals.len()
    &&& forall|k: int| 0 <= k < vals.len() && !has_float(#[trigger] vals[k]) ==> lines[k]@ == value_text(vals[k])
    &&& forall|k: int| 0 <= k < vals.len() ==> shows_value(lines[k]@, #[trigger] vals[k])
}

/// What the session does after a line.
pub enum ReplStep {
    /// The session ends.
    Quit,
    /// These lines are printed, and the session goes on.
    Print(Vec<String>),
}

/// Whether a step prints exactly the one line `text`.
pub open spec fn prints_line(r: ReplStep, text: Seq<char>) -> bool {
    r matches ReplStep::Print(v) && v@.len() == 1 && v@[0]@ == text
}

/// Whether a step prints nothing.
pub open spec fn prints_nothing(r: ReplStep) -> bool {
    r matches ReplStep::Print(v) && v@.len() == 0
}

/// An interactive session: an interpreter and the input gathered for an incomplete statement.
pub struct Repl {
    interpreter: Interpreter,
    buffer: String,
}

impl Repl {
    /// The variables in scope.
    pub closed spec fn env(&self) -> Env {
        self.interpreter.env()
    }

    /// The types known by name.
    pub closed spec fn types(&self) -> Registry {
        self.interpreter.types()
    }

    /// The input gathered so far for an incomplete statement.
    pub closed spec fn pending(&self) -> Seq<char> {
        self.buffer@
    }

    /// A session with no variables, the builtin types and nothing pending.
    pub fn new() -> (r: Repl)
        ensures
            r.env() == Map::<Seq<char>, BindingV>::empty(),
            r.types() == builtin_types(),
            r.pending().len() == 0,
    {
        Repl { interpreter: Interpreter::new(), buffer: String::new() }
    }

    /// The prompt to print before reading a line: `lang> `, or `....> ` while a statement is
    /// incomplete.
    pub fn prompt(&self) -> (r: &'static str)
        ensures
            self.pending().len() == 0 ==> r@ == "lang> "@,
            self.pending().len() != 0 ==> r@ == "....> "@,
    {
        if self.buffer.as_str().is_empty() {
            "lang> "
        } else {
            "....> "
        }
    }

    /// Takes one input line: gathers it, and once a statement is complete parses and runs it.
    /// A parse error prints `parse error: ` and its message, a failed statement `error: ` and
    /// the error, a statement that succeeds the values it echoed.
    pub fn feed_line<F: FloatOps>(&mut self, line: &str, floats: &F) -> (r: ReplStep)
        ensures
            final(self).types() == old(self).types(),
            match line_effect(old(self).pending(), line@) {
                LineEffect::Skip => prints_nothing(r) && final(self).env() == old(self).env()
                    && final(self).pending() == old(self).pending(),
                LineEffect::Quit => r is Quit && final(self).env() == old(self).env()
                    && final(self).pending() == old(self).pending(),
                LineEffect::Pending(p) => prints_nothing(r) && final(self).env() == old(self).env()
                    && final(self).pending() == p,
                LineEffect::Run(source) => final(self).pending().len() == 0 && r is Print
                    && (parse_statement_spec(source) matches Ok(st) ==> same_outside(old(self).env(), final(self).env(), stmt_names(st)))
                    && (parse_statement_spec(source) is Err ==> final(self).env() == old(self).env())
                    && if source.len() == 0 {
                    prints_nothing(r) && final(self).env() == old(self).env()
                } else {
                    match parse_statement_spec(source) {
                        Err(m) => prints_line(r, "parse error: "@ + m) && final(self).env() == old(self).env(),
                        Ok(st) => execution(old(self).types(), old(self).env(), st) matches Some(x) ==> {
                            &&& final(self).env() == x.0
                            &&& match x.1 {
                                Ok(vals) => r matches ReplStep::Print(lines) && prints_values(lines@, vals),
                                Err(e) => prints_line(r, "error: "@ + lang_error_text(e)),
                            }
                        },
                    }
                },
            },
    {
        let raw = strip_line_end_text(line);
        if self.buffer.as_str().is_empty() {
            let trimmed = trim_text(raw.as_str());
            if trimmed.as_str().is_empty() {
                return ReplStep::Print(Vec::new());
            }
            if crate::text::str_eq(trimmed.as_str(), ":quit") || crate::text::str_eq(trimmed.as_str(), ":exit") {
                return ReplStep::Quit;
            }
        }
        push_str(&mut self.buffer, raw.as_str());
        push_str(&mut self.buffer, "\n");
        if !statement_complete(self.buffer.as_str()) {
            return ReplStep::Print(Vec::new());
        }
        let source = trim_text(self.buffer.as_str());
        self.buffer = String::new();
        if source.as_str().is_empty() {
            return ReplStep::Print(Vec::new());
        }
        match parse_statement(source.as_str()) {
            Err(e) => {
                let mut msg = owned("parse error: ");
                push_str(&mut msg, e.message());
                let mut lines: Vec<String> = Vec::new();
                lines.push(msg);
                ReplStep::Print(lines)
            },
            Ok(statement) => {
                proof {
                    law_parsed_statement_wf(source@);
                    lemma_wf_stmt_ok(statement@);
                }
                match self.interpreter.execute(statement, floats) {
                    Ok(values) => {
                        let ghost vals = values_view(values@);
                        let mut lines: Vec<String> = Vec::new();
                        let mut k: usize = 0;
                        while k < values.len()
                            invariant
                                k <= values@.len(),
                                vals == values_view(values@),
                                lines@.len() == k,
                                forall|j: int| 0 <= j < k && !has_float(#[trigger] vals[j]) ==> lines@[j]@ == value_text(vals[j]),
                                forall|j: int| 0 <= j < k ==> shows_value(lines@[j]@, #[trigger] vals[j]),
                            decreases values@.len() - k,
                        {
                            let text = echo(&values[k], floats);
                            let ghost t = text@;
                            let ghost before = lines@;
                            lines.push(text);
                            proof {
                                assert(vals[k as int] == values@[k as int]@);
                                assert forall|j: int| 0 <= j < k + 1 implies shows_value(lines@[j]@, #[trigger] vals[j]) by {
                                    if j < k {
                                        assert(lines@[j] == before[j]);
                                    }
                                }
                            }
                            k = k + 1;
                        }
                        ReplStep::Print(lines)
                    },
                    Err(e) => {
                        let mut msg = owned("error: ");
                        let text = e.to_display_string();
                        push_str(&mut msg, text.as_str());
                        let mut lines: Vec<String> = Vec::new();
                        lines.push(msg);
                        ReplStep::Print(lines)
                    },
                }
            },
        }
    }
}

/// Running statements from position `i` on, each at the top level, until one fails: the scope
/// they leave, or the first error.
pub open spec fn run_all(reg: Registry, env: Env, ss: Seq<StmtV>, i: int) -> Option<Result<Env, LangErrorV>>
    decreases ss.len() - i,
{
    if i < 0 || i >= ss.len() {
        Some(Ok(env))
    } else {
        match execution(reg, env, ss[i]) {
            None => None,
            Some((next, Err(e))) => Some(Err(e)),
            Some((next, Ok(_))) => run_all(reg, next, ss, i + 1),
        }
    }
}

/// Parses a source and runs its statements, in order, in `interpreter`, stopping at the first
/// error; a syntax error becomes a parse error and leaves the interpreter as it was. On success
/// the parsed statements are returned.
pub fn run_source<F: FloatOps>(interpreter: &mut Interpreter, source: &str, floats: &F) -> (r: Result<Vec<Statement>, LangError>)
    ensures
        final(interpreter).types() == old(interpreter).types(),
        match parse_program_spec(source@) {
            Err(m) => r matches Err(e) && e@ == LangErrorV::Parse(m)
                && final(interpreter).env() == old(interpreter).env(),
            Ok(ss) => (run_all(old(interpreter).types(), old(interpreter).env(), ss, 0) matches Some(x) ==> match x {
                Ok(env) => r matches Ok(v) && statements_view(v@) == ss && final(interpreter).env() == env,
                Err(e) => r matches Err(f) && f@ == e,
            }) && same_outside(old(interpreter).env(), final(interpreter).env(), block_names(ss, 0)),
        },
{
    let statements = match parse_program(source) {
        Ok(v) => v,
        Err(e) => return Err(LangError::parse(e.message())),
    };
    let ghost ss = statements_view(statements@);
    proof {
        law_parsed_program_wf(source@);
        lemma_statements_view(statements@);
        lemma_stmts_wf(ss, 0);
    }
    let ghost reg = interpreter.types();
    let ghost target = run_all(reg, interpreter.env(), ss, 0);
    let mut i: usize = 0;
    while i < statements.len()
        invariant
            i <= statements@.len(),
            ss == statements_view(statements@),
            ss.len() == statements@.len(),
            forall|k: int| 0 <= k < statements@.len() ==> #[trigger] ss[k] == statements@[k]@,
            forall|k: int| 0 <= k < ss.len() ==> #[trigger] crate::ast::stmt_wf(ss[k]),
            interpreter.types() == reg,
            reg == old(interpreter).types(),
            parse_program_spec(source@) == Ok::<Seq<StmtV>, Seq<char>>(ss),
            target == run_all(reg, old(interpreter).env(), ss, 0),
            target is Some ==> target == run_all(reg, interpreter.env(), ss, i as int),
            same_outside(old(interpreter).env(), interpreter.env(), block_names(ss, 0)),
        decreases statements@.len() - i,
    {
        proof {
            lemma_wf_stmt_ok(ss[i as int]);
            lemma_block_names(ss, 0, i as int);
        }
        let ghost env_i = interpreter.env();
        let r = interpreter.run_statement(&statements[i], floats);
        proof {
            lemma_same_outside_trans(old(interpreter).env(), env_i, interpreter.env(), stmt_names(ss[i as int]), block_names(ss, 0));
        }
        match r {
            Ok(_) => {},
            Err(e) => return Err(e),
        }
        i = i + 1;
    }
    Ok(statements)
}

/// Parses a source and runs its statements in a fresh interpreter, stopping at the first error;
/// a syntax error becomes a parse error.
pub fn check_source<F: FloatOps>(source: &str, floats: &F) -> (r: Result<(), LangError>)
    ensures
        match parse_program_spec(source@) {
            Err(m) => r matches Err(e) && e@ == LangErrorV::Parse(m),
            Ok(ss) => run_all(builtin_types(), Map::empty(), ss, 0) matches Some(x) ==> match x {
                Ok(_) => r is Ok,
                Err(e) => r matches Err(f) && f@ == e,
            },
        },
{
    let mut interpreter = Interpreter::new();
    match run_source(&mut interpreter, source, floats) {
        Ok(_) => Ok(()),
        Err(e) => Err(e),
    }
}

} // verus!
