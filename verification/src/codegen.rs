//! The text that building a program into an executable writes: the program's source as a Rust
//! string literal, the manifest and the `main` of the generated crate, and the build settings.
//! Running the build itself (files, `cargo`, the native backend) is left to the caller.
use vstd::prelude::*;
use crate::ast::{Statement, StmtV, lemma_statements_view, lemma_stmts_wf, statements_view, stmt_wf};
use crate::diagnostics::{LangError, LangErrorV};
use crate::parser::{law_parsed_program_wf, parse_program, parse_program_spec};
use crate::pretty::{block_floats, fmt_stmt, format_statement_parts};
use crate::text::{chars_of, owned, push_char, push_str};
use crate::value::FloatOps;

verus! {

/// The name of the generated crate and of the executable it builds.
pub const PACKAGE_NAME: &'static str = "lang_build_artifact";

/// How a program is built.
#[derive(Debug, Clone, Copy, PartialEq, Eq, Structural)]
pub enum BuildProfile {
    Dev,
    Release,
}

impl BuildProfile {
    /// The flag that `cargo build` takes for this profile, if any.
    pub fn cargo_flag(self) -> (r: Option<&'static str>)
        ensures
            self == BuildProfile::Dev ==> r is None,
            self == BuildProfile::Release ==> (r matches Some(f) && f@ == "--release"@),
    {
        match self {
            BuildProfile::Dev => None,
            BuildProfile::Release => Some("--release"),
        }
    }

    /// The directory under `target` where `cargo` puts the executable.
    pub fn target_dir(self) -> (r: &'static str)
        ensures
            self == BuildProfile::Dev ==> r@ == "debug"@,
            self == BuildProfile::Release ==> r@ == "release"@,
    {
        match self {
            BuildProfile::Dev => "debug",
            BuildProfile::Release => "release",
        }
    }

    /// The optimisation level that the native backend is set to.
    pub fn opt_level(self) -> (r: &'static str)
        ensures
            self == BuildProfile::Dev ==> r@ == "none"@,
            self == BuildProfile::Release ==> r@ == "speed"@,
    {
        match self {
            BuildProfile::Dev => "none",
            BuildProfile::Release => "speed",
        }
    }
}

/// The native backend and the profile it compiles for.
pub struct CraneliftBackend {
    profile: BuildProfile,
}

impl CraneliftBackend {
    /// The profile that the backend compiles for.
    pub closed spec fn compiles_for(&self) -> BuildProfile {
        self.profile
    }

    /// A backend that compiles for `profile`.
    pub fn new(profile: BuildProfile) -> (r: Result<CraneliftBackend, LangError>)
        ensures
            r matches Ok(b) && b.compiles_for() == profile,
    {
        Ok(CraneliftBackend { profile })
    }

    /// The profile that the backend compiles for.
    pub fn profile(&self) -> (r: BuildProfile)
        ensures
            r == self.compiles_for(),
    {
        self.profile
    }
}

/// How a character is written inside a Rust string literal: backslash, quote, newline, carriage
/// return and tab escaped, every other character as it is.
pub open spec fn escape_char(c: char) -> Seq<char> {
    if c == '\\' {
        seq!['\\', '\\']
    } else if c == '"' {
        seq!['\\', '"']
    } else if c == '\n' {
        seq!['\\', 'n']
    } else if c == '\r' {
        seq!['\\', 'r']
    } else if c == '\t' {
        seq!['\\', 't']
    } else {
        seq![c]
    }
}

/// Every character of `s` as [`escape_char`] writes it.
pub open spec fn escape_all(s: Seq<char>) -> Seq<char>
    decreases s.len(),
{
    if s.len() == 0 {
        Seq::empty()
    } else {
        escape_all(s.drop_last()) + escape_char(s.last())
    }
}

/// A Rust string literal whose value is `input`.
pub fn string_literal(input: &str) -> (r: String)
    ensures
        r@ == seq!['"'] + escape_all(input@) + seq!['"'],
{
    let cs = chars_of(input);
    let mut literal = String::new();
    push_char(&mut literal, '"');
    let mut k: usize = 0;
    while k < cs.len()
        invariant
            cs@ == input@,
            k <= cs@.len(),
            literal@ == seq!['"'] + escape_all(cs@.take(k as int)),
        decreases cs@.len() - k,
    {
        let c = cs[k];
        if c == '\\' {
            push_char(&mut literal, '\\');
            push_char(&mut literal, '\\');
        } else if c == '"' {
            push_char(&mut literal, '\\');
            push_char(&mut literal, '"');
        } else if c == '\n' {
            push_char(&mut literal, '\\');
            push_char(&mut literal, 'n');
        } else if c == '\r' {
            push_char(&mut literal, '\\');
            push_char(&mut literal, 'r');
        } else if c == '\t' {
            push_char(&mut literal, '\\');
            push_char(&mut literal, 't');
        } else {
            push_char(&mut literal, c);
        }
        assert(cs@.take(k + 1).drop_last() =~= cs@.take(k as int));
        assert(literal@ =~= seq!['"'] + escape_all(cs@.take(k + 1)));
        k = k + 1;
    }
    assert(cs@.take(cs@.len() as int) =~= cs@);
    push_char(&mut literal, '"');
    literal
}

/// `s` with each backslash doubled.
pub open spec fn double_backslashes(s: Seq<char>) -> Seq<char>
    decreases s.len(),
{
    if s.len() == 0 {
        Seq::empty()
    } else {
        double_backslashes(s.drop_last()) + if s.last() == '\\' { seq!['\\', '\\'] } else { seq![s.last()] }
    }
}

/// A path as it is written inside a TOML string: each backslash doubled.
pub fn toml_path(path: &str) -> (r: String)
    ensures
        r@ == double_backslashes(path@),
{
    let cs = chars_of(path);
    let mut out = String::new();
    let mut k: usize = 0;
    while k < cs.len()
        invariant
            cs@ == path@,
            k <= cs@.len(),
            out@ == double_backslashes(cs@.take(k as int)),
        decreases cs@.len() - k,
    {
        if cs[k] == '\\' {
            push_char(&mut out, '\\');
            push_char(&mut out, '\\');
        } else {
            push_char(&mut out, cs[k]);
        }
        assert(cs@.take(k + 1).drop_last() =~= cs@.take(k as int));
        assert(out@ =~= double_backslashes(cs@.take(k + 1)));
        k = k + 1;
    }
    assert(cs@.take(cs@.len() as int) =~= cs@);
    out
}

/// The manifest of the generated crate, which depends on this library at `library_root`.
pub open spec fn manifest_text(library_root: Seq<char>) -> Seq<char> {
    "[package]\nname = \""@ + "lang_build_artifact"@ + "\"\nversion = \"0.1.0\"\nedition = \"2021\"\n\n[dependencies]\nlang = { path = \""@
        + double_backslashes(library_root) + "\" }\n"@
}

/// The manifest of the generated crate.
pub fn crate_manifest(library_root: &str) -> (r: String)
    ensures
        r@ == manifest_text(library_root@),
{
    let mut out = owned("[package]\nname = \"");
    push_str(&mut out, PACKAGE_NAME);
    push_str(&mut out, "\"\nversion = \"0.1.0\"\nedition = \"2021\"\n\n[dependencies]\nlang = { path = \"");
    let p = toml_path(library_root);
    push_str(&mut out, p.as_str());
    push_str(&mut out, "\" }\n");
    out
}

/// The `main` of the generated crate: it runs the program given as a string literal and prints
/// what it echoes; its module `support` (written beside it) holds the float arithmetic and the
/// exit with a failure status.
pub open spec fn main_text(program_literal: Seq<char>) -> Seq<char> {
    "use lang::diagnostics::LangError;\nuse lang::interpreter::Interpreter;\nuse lang::parser::parse_program;\nuse lang::repl::echo;\n\nmod support;\n\nfn main() {\n    if let Err(err) = run_program() {\n        eprintln!(\"{}\", err.to_display_string());\n        support::fail();\n    }\n}\n\nfn run_program() -> Result<(), LangError> {\n    let floats = support::HostFloats;\n    let source: &str = "@
        + program_literal
        + ";\n    let statements = parse_program(source).map_err(|err| LangError::parse(err.message()))?;\n    let mut interpreter = Interpreter::new();\n    for statement in statements {\n        let values = interpreter.execute(statement, &floats)?;\n        for value in values {\n            println!(\"{}\", echo(&value, &floats));\n        }\n    }\n    Ok(())\n}\n"@
}

/// The `main` of the generated crate.
pub fn generated_main(program_literal: &str) -> (r: String)
    ensures
        r@ == main_text(program_literal@),
{
    let mut out = owned("use lang::diagnostics::LangError;\nuse lang::interpreter::Interpreter;\nuse lang::parser::parse_program;\nuse lang::repl::echo;\n\nmod support;\n\nfn main() {\n    if let Err(err) = run_program() {\n        eprintln!(\"{}\", err.to_display_string());\n        support::fail();\n    }\n}\n\nfn run_program() -> Result<(), LangError> {\n    let floats = support::HostFloats;\n    let source: &str = ");
    push_str(&mut out, program_literal);
    push_str(&mut out, ";\n    let statements = parse_program(source).map_err(|err| LangError::parse(err.message()))?;\n    let mut interpreter = Interpreter::new();\n    for statement in statements {\n        let values = interpreter.execute(statement, &floats)?;\n        for value in values {\n            println!(\"{}\", echo(&value, &floats));\n        }\n    }\n    Ok(())\n}\n");
    out
}

/// The text of a program: its statements one per line, their float literals written `fs` in
/// order.
pub open spec fn program_text(ss: Seq<StmtV>, fs: Seq<Seq<char>>) -> Seq<char>
    decreases ss.len(),
{
    if ss.len() == 0 {
        Seq::empty()
    } else {
        let c = block_floats(ss.drop_last()) as int;
        let item = fmt_stmt(ss.last(), fs.skip(c));
        if ss.len() == 1 {
            item
        } else {
            program_text(ss.drop_last(), fs.take(c)) + "\n"@ + item
        }
    }
}

/// Whether `t` is the text of the program, its float literals written some way.
pub open spec fn shows_program(t: Seq<char>, ss: Seq<StmtV>) -> bool {
    exists|fs: Seq<Seq<char>>| #![trigger program_text(ss, fs)] fs.len() == block_floats(ss) && t == program_text(ss, fs)
}

/// The source of a program: its statements formatted, joined by newlines.
pub fn program_source<F: FloatOps>(statements: &[Statement], floats: &F) -> (r: String)
    requires
        forall|i: int| 0 <= i < statements@.len() ==> #[trigger] stmt_wf(statements@[i]@),
    ensures
        shows_program(r@, statements@.map_values(|s: Statement| s@)),
{
    let ghost sv = statements@.map_values(|s: Statement| s@);
    let n = statements.len();
    let mut out = String::new();
    let ghost mut fs_acc: Seq<Seq<char>> = Seq::empty();
    let mut k: usize = 0;
    assert(sv.take(0) =~= Seq::<StmtV>::empty());
    while k < n
        invariant
            n == statements@.len(),
            sv == statements@.map_values(|s: Statement| s@),
            sv.len() == n,
            forall|i: int| 0 <= i < statements@.len() ==> #[trigger] stmt_wf(statements@[i]@),
            k <= n,
            fs_acc.len() == block_floats(sv.take(k as int)),
            out@ == program_text(sv.take(k as int), fs_acc),
        decreases n - k,
    {
        let ghost before = out@;
        if k > 0 {
            push_str(&mut out, "\n");
        }
        let (t, ft) = format_statement_parts(&statements[k], floats);
        push_str(&mut out, t.as_str());
        proof {
            let tk = sv.take(k + 1);
            let nfs = fs_acc + ft@;
            assert(tk.drop_last() =~= sv.take(k as int));
            assert(tk.last() == sv[k as int]);
            assert(nfs.take(fs_acc.len() as int) =~= fs_acc);
            assert(nfs.skip(fs_acc.len() as int) =~= ft@);
            if k == 0 {
                assert(before =~= Seq::<char>::empty());
            }
            assert(out@ =~= program_text(tk, nfs));
            fs_acc = nfs;
        }
        k = k + 1;
    }
    assert(sv.take(n as int) =~= sv);
    assert(fs_acc.len() == block_floats(sv) && out@ == program_text(sv, fs_acc));
    out
}

/// Formats a source text: its statements parsed and written back one per line; a syntax error
/// becomes a parse error.
pub fn format_source<F: FloatOps>(source: &str, floats: &F) -> (r: Result<String, LangError>)
    ensures
        match parse_program_spec(source@) {
            Err(m) => r matches Err(e) && e@ == LangErrorV::Parse(m),
            Ok(ss) => r matches Ok(t) && shows_program(t@, ss),
        },
{
    let statements = match parse_program(source) {
        Ok(v) => v,
        Err(e) => return Err(LangError::parse(e.message())),
    };
    proof {
        let ss = statements_view(statements@);
        law_parsed_program_wf(source@);
        lemma_statements_view(statements@);
        lemma_stmts_wf(ss, 0);
        assert(statements@.map_values(|s: Statement| s@) =~= ss);
        assert forall|i: int| 0 <= i < statements@.len() implies #[trigger] stmt_wf(statements@[i]@) by {
            assert(ss[i] == statements@[i]@);
        }
    }
    let text = program_source(statements.as_slice(), floats);
    Ok(text)
}

} // verus!
