//! Tokens produced by the lexer.
use vstd::prelude::*;
use crate::text::{int_decimal, owned, push_i64, push_str};

verus! {

/// The kinds of tokens.
#[derive(Debug, PartialEq)]
pub enum TokenKind {
    LParen,
    RParen,
    LBrace,
    RBrace,
    LBracket,
    RBracket,
    Comma,
    Colon,
    Semicolon,
    Equals,
    Arrow,
    Plus,
    Minus,
    Star,
    Slash,
    Percent,
    PlusPlus,
    MinusMinus,
    PlusEquals,
    MinusEquals,
    StarEquals,
    SlashEquals,
    PercentEquals,
    Bang,
    DoubleAmpersand,
    DoublePipe,
    Less,
    LessEqual,
    Greater,
    GreaterEqual,
    EqualEqual,
    BangEqual,
    Echo,
    Let,
    Fix,
    If,
    Else,
    While,
    Break,
    Continue,
    Identifier(String),
    IntegerLiteral(i64),
    /// A float literal, as written in the source (digits, a dot, digits).
    FloatLiteral(String),
    StringLiteral(String),
    BoolLiteral(bool),
}

/// The mathematical content of a [`TokenKind`].
pub enum TokenKindV {
    LParen,
    RParen,
    LBrace,
    RBrace,
    LBracket,
    RBracket,
    Comma,
    Colon,
    Semicolon,
    Equals,
    Arrow,
    Plus,
    Minus,
    Star,
    Slash,
    Percent,
    PlusPlus,
    MinusMinus,
    PlusEquals,
    MinusEquals,
    StarEquals,
    SlashEquals,
    PercentEquals,
    Bang,
    DoubleAmpersand,
    DoublePipe,
    Less,
    LessEqual,
    Greater,
    GreaterEqual,
    EqualEqual,
    BangEqual,
    Echo,
    Let,
    Fix,
    If,
    Else,
    While,
    Break,
    Continue,
    Identifier(Seq<char>),
    IntegerLiteral(i64),
    FloatLiteral(Seq<char>),
    StringLiteral(Seq<char>),
    BoolLiteral(bool),
}

impl View for TokenKind {
    type V = TokenKindV;

    open spec fn view(&self) -> TokenKindV {
        match self {
            TokenKind::LParen => TokenKindV::LParen,
            TokenKind::RParen => TokenKindV::RParen,
            TokenKind::LBrace => TokenKindV::LBrace,
            TokenKind::RBrace => TokenKindV::RBrace,
            TokenKind::LBracket => TokenKindV::LBracket,
            TokenKind::RBracket => TokenKindV::RBracket,
            TokenKind::Comma => TokenKindV::Comma,
            TokenKind::Colon => TokenKindV::Colon,
            TokenKind::Semicolon => TokenKindV::Semicolon,
            TokenKind::Equals => TokenKindV::Equals,
            TokenKind::Arrow => TokenKindV::Arrow,
            TokenKind::Plus => TokenKindV::Plus,
            TokenKind::Minus => TokenKindV::Minus,
            TokenKind::Star => TokenKindV::Star,
            TokenKind::Slash => TokenKindV::Slash,
            TokenKind::Percent => TokenKindV::Percent,
            TokenKind::PlusPlus => TokenKindV::PlusPlus,
            TokenKind::MinusMinus => TokenKindV::MinusMinus,
            TokenKind::PlusEquals => TokenKindV::PlusEquals,
            TokenKind::MinusEquals => TokenKindV::MinusEquals,
            TokenKind::StarEquals => TokenKindV::StarEquals,
            TokenKind::SlashEquals => TokenKindV::SlashEquals,
            TokenKind::PercentEquals => TokenKindV::PercentEquals,
            TokenKind::Bang => TokenKindV::Bang,
            TokenKind::DoubleAmpersand => TokenKindV::DoubleAmpersand,
            TokenKind::DoublePipe => TokenKindV::DoublePipe,
            TokenKind::Less => TokenKindV::Less,
            TokenKind::LessEqual => TokenKindV::LessEqual,
            TokenKind::Greater => TokenKindV::Greater,
            TokenKind::GreaterEqual => TokenKindV::GreaterEqual,
            TokenKind::EqualEqual => TokenKindV::EqualEqual,
            TokenKind::BangEqual => TokenKindV::BangEqual,
            TokenKind::Echo => TokenKindV::Echo,
            TokenKind::Let => TokenKindV::Let,
            TokenKind::Fix => TokenKindV::Fix,
            TokenKind::If => TokenKindV::If,
            TokenKind::Else => TokenKindV::Else,
            TokenKind::While => TokenKindV::While,
            TokenKind::Break => TokenKindV::Break,
            TokenKind::Continue => TokenKindV::Continue,
            TokenKind::Identifier(s) => TokenKindV::Identifier(s@),
            TokenKind::IntegerLiteral(i) => TokenKindV::IntegerLiteral(*i),
            TokenKind::FloatLiteral(s) => TokenKindV::FloatLiteral(s@),
            TokenKind::StringLiteral(s) => TokenKindV::StringLiteral(s@),
            TokenKind::BoolLiteral(b) => TokenKindV::BoolLiteral(*b),
        }
    }
}

impl TokenKind {
    /// A copy of this token kind.
    pub fn copy(&self) -> (r: TokenKind)
        ensures
            r@ == self@,
    {
        match self {
            TokenKind::LParen => TokenKind::LParen,
            TokenKind::RParen => TokenKind::RParen,
            TokenKind::LBrace => TokenKind::LBrace,
            TokenKind::RBrace => TokenKind::RBrace,
            TokenKind::LBracket => TokenKind::LBracket,
            TokenKind::RBracket => TokenKind::RBracket,
            TokenKind::Comma => TokenKind::Comma,
            TokenKind::Colon => TokenKind::Colon,
            TokenKind::Semicolon => TokenKind::Semicolon,
            TokenKind::Equals => TokenKind::Equals,
            TokenKind::Arrow => TokenKind::Arrow,
            TokenKind::Plus => TokenKind::Plus,
            TokenKind::Minus => TokenKind::Minus,
            TokenKind::Star => TokenKind::Star,
            TokenKind::Slash => TokenKind::Slash,
            TokenKind::Percent => TokenKind::Percent,
            TokenKind::PlusPlus => TokenKind::PlusPlus,
            TokenKind::MinusMinus => TokenKind::MinusMinus,
            TokenKind::PlusEquals => TokenKind::PlusEquals,
            TokenKind::MinusEquals => TokenKind::MinusEquals,
            TokenKind::StarEquals => TokenKind::StarEquals,
            TokenKind::SlashEquals => TokenKind::SlashEquals,
            TokenKind::PercentEquals => TokenKind::PercentEquals,
            TokenKind::Bang => TokenKind::Bang,
            TokenKind::DoubleAmpersand => TokenKind::DoubleAmpersand,
            TokenKind::DoublePipe => TokenKind::DoublePipe,
            TokenKind::Less => TokenKind::Less,
            TokenKind::LessEqual => TokenKind::LessEqual,
            TokenKind::Greater => TokenKind::Greater,
            TokenKind::GreaterEqual => TokenKind::GreaterEqual,
            TokenKind::EqualEqual => TokenKind::EqualEqual,
            TokenKind::BangEqual => TokenKind::BangEqual,
            TokenKind::Echo => TokenKind::Echo,
            TokenKind::Let => TokenKind::Let,
            TokenKind::Fix => TokenKind::Fix,
            TokenKind::If => TokenKind::If,
            TokenKind::Else => TokenKind::Else,
            TokenKind::While => TokenKind::While,
            TokenKind::Break => TokenKind::Break,
            TokenKind::Continue => TokenKind::Continue,
            TokenKind::Identifier(s) => TokenKind::Identifier(s.clone()),
            TokenKind::IntegerLiteral(i) => TokenKind::IntegerLiteral(*i),
            TokenKind::FloatLiteral(s) => TokenKind::FloatLiteral(s.clone()),
            TokenKind::StringLiteral(s) => TokenKind::StringLiteral(s.clone()),
            TokenKind::BoolLiteral(b) => TokenKind::BoolLiteral(*b),
        }
    }
}

/// A token and the byte offset in the source where it starts.
#[derive(Debug, PartialEq)]
pub struct Token {
    pub kind: TokenKind,
    pub position: usize,
}

/// The mathematical content of a [`Token`].
pub struct TokenV {
    pub kind: TokenKindV,
    pub position: nat,
}

impl View for Token {
    type V = TokenV;

    open spec fn view(&self) -> TokenV {
        TokenV { kind: self.kind@, position: self.position as nat }
    }
}

/// The text of a string in the form that `Debug` writes it: quoted, with special characters
/// escaped.
pub uninterp spec fn debug_quoted(s: Seq<char>) -> Seq<char>;

/// The `Debug` text of a string, through `format!("{:?}", ..)` of std; the contract names its
/// result only, since std's escaping rules (which characters count as printable) take tables
/// to state.
#[verifier::external_body]
pub(crate) fn debug_quote(s: &str) -> (r: String)
    ensures
        r@ == debug_quoted(s@),
{
    format!("{:?}", s)
}

/// A variant name with its payload text in parentheses, as a token kind is written in messages.
pub fn variant_text(name: &str, payload: &str) -> (r: String)
    ensures
        r@ == name@ + "("@ + payload@ + ")"@,
{
    let mut out = owned(name);
    push_str(&mut out, "(");
    push_str(&mut out, payload);
    push_str(&mut out, ")");
    out
}

/// How a token kind is written in messages: its variant name, with its payload in parentheses.
pub open spec fn token_text(k: TokenKindV) -> Seq<char> {
    match k {
        TokenKindV::LParen => "LParen"@,
        TokenKindV::RParen => "RParen"@,
        TokenKindV::LBrace => "LBrace"@,
        TokenKindV::RBrace => "RBrace"@,
        TokenKindV::LBracket => "LBracket"@,
        TokenKindV::RBracket => "RBracket"@,
        TokenKindV::Comma => "Comma"@,
        TokenKindV::Colon => "Colon"@,
        TokenKindV::Semicolon => "Semicolon"@,
        TokenKindV::Equals => "Equals"@,
        TokenKindV::Arrow => "Arrow"@,
        TokenKindV::Plus => "Plus"@,
        TokenKindV::Minus => "Minus"@,
        TokenKindV::Star => "Star"@,
        TokenKindV::Slash => "Slash"@,
        TokenKindV::Percent => "Percent"@,
        TokenKindV::PlusPlus => "PlusPlus"@,
        TokenKindV::MinusMinus => "MinusMinus"@,
        TokenKindV::PlusEquals => "PlusEquals"@,
        TokenKindV::MinusEquals => "MinusEquals"@,
        TokenKindV::StarEquals => "StarEquals"@,
        TokenKindV::SlashEquals => "SlashEquals"@,
        TokenKindV::PercentEquals => "PercentEquals"@,
        TokenKindV::Bang => "Bang"@,
        TokenKindV::DoubleAmpersand => "DoubleAmpersand"@,
        TokenKindV::DoublePipe => "DoublePipe"@,
        TokenKindV::Less => "Less"@,
        TokenKindV::LessEqual => "LessEqual"@,
        TokenKindV::Greater => "Greater"@,
        TokenKindV::GreaterEqual => "GreaterEqual"@,
        TokenKindV::EqualEqual => "EqualEqual"@,
        TokenKindV::BangEqual => "BangEqual"@,
        TokenKindV::Echo => "Echo"@,
        TokenKindV::Let => "Let"@,
        TokenKindV::Fix => "Fix"@,
        TokenKindV::If => "If"@,
        TokenKindV::Else => "Else"@,
        TokenKindV::While => "While"@,
        TokenKindV::Break => "Break"@,
        TokenKindV::Continue => "Continue"@,
        TokenKindV::Identifier(s) => "Identifier("@ + debug_quoted(s) + ")"@,
        TokenKindV::IntegerLiteral(i) => "IntegerLiteral("@ + int_decimal(i as int) + ")"@,
        TokenKindV::FloatLiteral(s) => "FloatLiteral("@ + s + ")"@,
        TokenKindV::StringLiteral(s) => "StringLiteral("@ + debug_quoted(s) + ")"@,
        TokenKindV::BoolLiteral(b) => if b { "BoolLiteral(true)"@ } else { "BoolLiteral(false)"@ },
    }
}

/// A number for each kind without payload, and one for each kind with a payload.
pub open spec fn kind_code(k: TokenKindV) -> u8 {
    match k {
        TokenKindV::LParen => 0,
        TokenKindV::RParen => 1,
        TokenKindV::LBrace => 2,
        TokenKindV::RBrace => 3,
        TokenKindV::LBracket => 4,
        TokenKindV::RBracket => 5,
        TokenKindV::Comma => 6,
        TokenKindV::Colon => 7,
        TokenKindV::Semicolon => 8,
        TokenKindV::Equals => 9,
        TokenKindV::Arrow => 10,
        TokenKindV::Plus => 11,
        TokenKindV::Minus => 12,
        TokenKindV::Star => 13,
        TokenKindV::Slash => 14,
        TokenKindV::Percent => 15,
        TokenKindV::PlusPlus => 16,
        TokenKindV::MinusMinus => 17,
        TokenKindV::PlusEquals => 18,
        TokenKindV::MinusEquals => 19,
        TokenKindV::StarEquals => 20,
        TokenKindV::SlashEquals => 21,
        TokenKindV::PercentEquals => 22,
        TokenKindV::Bang => 23,
        TokenKindV::DoubleAmpersand => 24,
        TokenKindV::DoublePipe => 25,
        TokenKindV::Less => 26,
        TokenKindV::LessEqual => 27,
        TokenKindV::Greater => 28,
        TokenKindV::GreaterEqual => 29,
        TokenKindV::EqualEqual => 30,
        TokenKindV::BangEqual => 31,
        TokenKindV::Echo => 32,
        TokenKindV::Let => 33,
        TokenKindV::Fix => 34,
        TokenKindV::If => 35,
        TokenKindV::Else => 36,
        TokenKindV::While => 37,
        TokenKindV::Break => 38,
        TokenKindV::Continue => 39,
        TokenKindV::Identifier(_) => 40,
        TokenKindV::IntegerLiteral(_) => 41,
        TokenKindV::FloatLiteral(_) => 42,
        TokenKindV::StringLiteral(_) => 43,
        TokenKindV::BoolLiteral(_) => 44,
    }
}

/// Whether a kind carries no payload.
pub open spec fn is_plain(k: TokenKindV) -> bool {
    kind_code(k) < 40
}

impl TokenKind {
    /// The text of this kind in messages.
    pub fn describe(&self) -> (r: String)
        ensures
            r@ == token_text(self@),
    {
        match self {
            TokenKind::LParen => owned("LParen"),
            TokenKind::RParen => owned("RParen"),
            TokenKind::LBrace => owned("LBrace"),
            TokenKind::RBrace => owned("RBrace"),
            TokenKind::LBracket => owned("LBracket"),
            TokenKind::RBracket => owned("RBracket"),
            TokenKind::Comma => owned("Comma"),
            TokenKind::Colon => owned("Colon"),
            TokenKind::Semicolon => owned("Semicolon"),
            TokenKind::Equals => owned("Equals"),
            TokenKind::Arrow => owned("Arrow"),
            TokenKind::Plus => owned("Plus"),
            TokenKind::Minus => owned("Minus"),
            TokenKind::Star => owned("Star"),
            TokenKind::Slash => owned("Slash"),
            TokenKind::Percent => owned("Percent"),
            TokenKind::PlusPlus => owned("PlusPlus"),
            TokenKind::MinusMinus => owned("MinusMinus"),
            TokenKind::PlusEquals => owned("PlusEquals"),
            TokenKind::MinusEquals => owned("MinusEquals"),
            TokenKind::StarEquals => owned("StarEquals"),
            TokenKind::SlashEquals => owned("SlashEquals"),
            TokenKind::PercentEquals => owned("PercentEquals"),
            TokenKind::Bang => owned("Bang"),
            TokenKind::DoubleAmpersand => owned("DoubleAmpersand"),
            TokenKind::DoublePipe => owned("DoublePipe"),
            TokenKind::Less => owned("Less"),
            TokenKind::LessEqual => owned("LessEqual"),
            TokenKind::Greater => owned("Greater"),
            TokenKind::GreaterEqual => owned("GreaterEqual"),
            TokenKind::EqualEqual => owned("EqualEqual"),
            TokenKind::BangEqual => owned("BangEqual"),
            TokenKind::Echo => owned("Echo"),
            TokenKind::Let => owned("Let"),
            TokenKind::Fix => owned("Fix"),
            TokenKind::If => owned("If"),
            TokenKind::Else => owned("Else"),
            TokenKind::While => owned("While"),
            TokenKind::Break => owned("Break"),
            TokenKind::Continue => owned("Continue"),
            TokenKind::Identifier(s) => {
                let q = debug_quote(s.as_str());
                proof {
                    reveal_strlit("Identifier");
                    reveal_strlit("Identifier(");
                    reveal_strlit("(");
                    assert("Identifier("@ =~= "Identifier"@ + "("@);
                }
                variant_text("Identifier", q.as_str())
            },
            TokenKind::IntegerLiteral(i) => {
                let mut out = owned("IntegerLiteral(");
                push_i64(&mut out, *i);
                push_str(&mut out, ")");
                out
            },
            TokenKind::FloatLiteral(s) => {
                let mut out = owned("FloatLiteral(");
                push_str(&mut out, s.as_str());
                push_str(&mut out, ")");
                out
            },
            TokenKind::StringLiteral(s) => {
                let q = debug_quote(s.as_str());
                proof {
                    reveal_strlit("StringLiteral");
                    reveal_strlit("StringLiteral(");
                    reveal_strlit("(");
                    assert("StringLiteral("@ =~= "StringLiteral"@ + "("@);
                }
                variant_text("StringLiteral", q.as_str())
            },
            TokenKind::BoolLiteral(b) => if *b {
                owned("BoolLiteral(true)")
            } else {
                owned("BoolLiteral(false)")
            },
        }
    }

    /// The number of this kind.
    pub fn code(&self) -> (r: u8)
        ensures
            r == kind_code(self@),
    {
        match self {
            TokenKind::LParen => 0,
            TokenKind::RParen => 1,
            TokenKind::LBrace => 2,
            TokenKind::RBrace => 3,
            TokenKind::LBracket => 4,
            TokenKind::RBracket => 5,
            TokenKind::Comma => 6,
            TokenKind::Colon => 7,
            TokenKind::Semicolon => 8,
            TokenKind::Equals => 9,
            TokenKind::Arrow => 10,
            TokenKind::Plus => 11,
            TokenKind::Minus => 12,
            TokenKind::Star => 13,
            TokenKind::Slash => 14,
            TokenKind::Percent => 15,
            TokenKind::PlusPlus => 16,
            TokenKind::MinusMinus => 17,
            TokenKind::PlusEquals => 18,
            TokenKind::MinusEquals => 19,
            TokenKind::StarEquals => 20,
            TokenKind::SlashEquals => 21,
            TokenKind::PercentEquals => 22,
            TokenKind::Bang => 23,
            TokenKind::DoubleAmpersand => 24,
            TokenKind::DoublePipe => 25,
            TokenKind::Less => 26,
            TokenKind::LessEqual => 27,
            TokenKind::Greater => 28,
            TokenKind::GreaterEqual => 29,
            TokenKind::EqualEqual => 30,
            TokenKind::BangEqual => 31,
            TokenKind::Echo => 32,
            TokenKind::Let => 33,
            TokenKind::Fix => 34,
            TokenKind::If => 35,
            TokenKind::Else => 36,
            TokenKind::While => 37,
            TokenKind::Break => 38,
            TokenKind::Continue => 39,
            TokenKind::Identifier(_) => 40,
            TokenKind::IntegerLiteral(_) => 41,
            TokenKind::FloatLiteral(_) => 42,
            TokenKind::StringLiteral(_) => 43,
            TokenKind::BoolLiteral(_) => 44,
        }
    }
}

/// Two kinds without payload with the same number are the same kind.
pub proof fn lemma_plain_code(a: TokenKindV, b: TokenKindV)
    requires
        is_plain(b),
        kind_code(a) == kind_code(b),
    ensures
        a == b,
{
}

} // verus!
