//! A small scripting language: lexer, parser, pretty printer, type registry,
//! tree-walking interpreter and lowering to a typed intermediate form.
pub mod text;
pub mod diagnostics;
pub mod types;
pub mod value;
pub mod array_laws;
pub mod scope;
pub mod token;
pub mod lexer;
pub mod ast;
pub mod semantics;
pub mod interpreter;
pub mod mir;
pub mod mir_laws;
pub mod mir_semantics;
pub mod parser;
pub mod syntax_laws;
pub mod repl;
pub mod pretty;
pub mod codegen;
pub mod task;
