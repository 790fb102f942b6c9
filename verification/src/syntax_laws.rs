//! Laws that tie the lexer, the parser and the pretty printer together: the text of every binary
//! operator lexes and parses back to that operator, and escapes in string literals stand for the
//! characters they name.
use vstd::prelude::*;
use crate::ast::BinaryOp;
use crate::lexer::{is_ws, lex_from, lex_spec, scan_string, scan_token, unescape};
use crate::parser::op_at;
use crate::pretty::binary_op_text;
use crate::token::{TokenKindV, TokenV};

verus! {

/// A text that is one token from its first character to its end lexes to that token alone, at
/// byte position 0.
proof fn lemma_lex_one_token(cs: Seq<char>, k: TokenKindV)
    requires
        cs.len() > 0,
        !is_ws(cs[0]),
        scan_token(cs, 0) == Ok::<(TokenKindV, int), Seq<char>>((k, cs.len() as int)),
    ensures
        lex_spec(cs) == Ok::<Seq<TokenV>, Seq<char>>(seq![TokenV { kind: k, position: 0 }]),
{
    assert(cs.take(0) =~= Seq::<char>::empty());
    assert(vstd::utf8::encode_utf8(Seq::<char>::empty()) =~= Seq::<u8>::empty());
    assert(lex_from(cs, cs.len() as int) == Ok::<Seq<TokenV>, Seq<char>>(Seq::empty()));
    assert(seq![TokenV { kind: k, position: 0 }] + Seq::<TokenV>::empty() =~= seq![TokenV { kind: k, position: 0 }]);
}

/// The text that the pretty printer writes for a binary operator lexes to a single token, which
/// the parser reads, at the precedence level of the operator, as that same operator.
pub proof fn law_operator_text_parses_back(op: BinaryOp)
    ensures
        lex_spec(binary_op_text(op)) matches Ok(ts) && ts.len() == 1
            && exists|level: int| 0 <= level <= 5 && #[trigger] op_at(ts, 0, level) == Some(op),
{
    let cs = binary_op_text(op);
    match op {
        BinaryOp::Add => {
            reveal_strlit("+");
            lemma_lex_one_token(cs, TokenKindV::Plus);
            assert(op_at(seq![TokenV { kind: TokenKindV::Plus, position: 0 }], 0, 4) == Some(op));
        },
        BinaryOp::Subtract => {
            reveal_strlit("-");
            lemma_lex_one_token(cs, TokenKindV::Minus);
            assert(op_at(seq![TokenV { kind: TokenKindV::Minus, position: 0 }], 0, 4) == Some(op));
        },
        BinaryOp::Multiply => {
            reveal_strlit("*");
            lemma_lex_one_token(cs, TokenKindV::Star);
            assert(op_at(seq![TokenV { kind: TokenKindV::Star, position: 0 }], 0, 5) == Some(op));
        },
        BinaryOp::Divide => {
            reveal_strlit("/");
            lemma_lex_one_token(cs, TokenKindV::Slash);
            assert(op_at(seq![TokenV { kind: TokenKindV::Slash, position: 0 }], 0, 5) == Some(op));
        },
        BinaryOp::Modulo => {
            reveal_strlit("%");
            lemma_lex_one_token(cs, TokenKindV::Percent);
            assert(op_at(seq![TokenV { kind: TokenKindV::Percent, position: 0 }], 0, 5) == Some(op));
        },
        BinaryOp::Equal => {
            reveal_strlit("==");
            lemma_lex_one_token(cs, TokenKindV::EqualEqual);
            assert(op_at(seq![TokenV { kind: TokenKindV::EqualEqual, position: 0 }], 0, 2) == Some(op));
        },
        BinaryOp::NotEqual => {
            reveal_strlit("!=");
            lemma_lex_one_token(cs, TokenKindV::BangEqual);
            assert(op_at(seq![TokenV { kind: TokenKindV::BangEqual, position: 0 }], 0, 2) == Some(op));
        },
        BinaryOp::Less => {
            reveal_strlit("<");
            lemma_lex_one_token(cs, TokenKindV::Less);
            assert(op_at(seq![TokenV { kind: TokenKindV::Less, position: 0 }], 0, 3) == Some(op));
        },
        BinaryOp::LessEqual => {
            reveal_strlit("<=");
            lemma_lex_one_token(cs, TokenKindV::LessEqual);
            assert(op_at(seq![TokenV { kind: TokenKindV::LessEqual, position: 0 }], 0, 3) == Some(op));
        },
        BinaryOp::Greater => {
            reveal_strlit(">");
            lemma_lex_one_token(cs, TokenKindV::Greater);
            assert(op_at(seq![TokenV { kind: TokenKindV::Greater, position: 0 }], 0, 3) == Some(op));
        },
        BinaryOp::GreaterEqual => {
            reveal_strlit(">=");
            lemma_lex_one_token(cs, TokenKindV::GreaterEqual);
            assert(op_at(seq![TokenV { kind: TokenKindV::GreaterEqual, position: 0 }], 0, 3) == Some(op));
        },
        BinaryOp::And => {
            reveal_strlit("&&");
            lemma_lex_one_token(cs, TokenKindV::DoubleAmpersand);
            assert(op_at(seq![TokenV { kind: TokenKindV::DoubleAmpersand, position: 0 }], 0, 1) == Some(op));
        },
        BinaryOp::Or => {
            reveal_strlit("||");
            lemma_lex_one_token(cs, TokenKindV::DoublePipe);
            assert(op_at(seq![TokenV { kind: TokenKindV::DoublePipe, position: 0 }], 0, 0) == Some(op));
        },
    }
}

/// Text that can stand in a string literal without an escape: no quote and no backslash.
pub open spec fn plain_text(s: Seq<char>) -> bool {
    forall|i: int| 0 <= i < s.len() ==> s[i] != '"' && s[i] != '\\'
}

/// A string literal's source: `s` between double quotes.
pub open spec fn quoted(s: Seq<char>) -> Seq<char> {
    seq!['"'] + s + seq!['"']
}

/// Reading a run of plain characters appends them to what was read.
proof fn lemma_scan_plain(cs: Seq<char>, j: int, n: int, acc: Seq<char>)
    requires
        0 <= j,
        0 <= n,
        j + n <= cs.len(),
        forall|i: int| j <= i < j + n ==> cs[i] != '"' && cs[i] != '\\',
    ensures
        scan_string(cs, j, acc) == scan_string(cs, j + n, acc + cs.subrange(j, j + n)),
    decreases n,
{
    if n == 0 {
        assert(acc + cs.subrange(j, j) =~= acc);
    } else {
        lemma_scan_plain(cs, j + 1, n - 1, acc.push(cs[j]));
        assert(acc.push(cs[j]) + cs.subrange(j + 1, j + n) =~= acc + cs.subrange(j, j + n));
    }
}

/// A string literal whose body is plain text followed by one escape and more plain text lexes to
/// a single string token holding the character that the escape names.
proof fn lemma_one_escape(s1: Seq<char>, e: char, s2: Seq<char>)
    requires
        plain_text(s1),
        plain_text(s2),
    ensures
        lex_spec(quoted(s1 + seq!['\\', e] + s2)) == Ok::<Seq<TokenV>, Seq<char>>(
            seq![TokenV { kind: TokenKindV::StringLiteral(s1 + seq![unescape(e)] + s2), position: 0 }],
        ),
{
    let body = s1 + seq!['\\', e] + s2;
    let cs = quoted(body);
    let n1 = s1.len() as int;
    let n2 = s2.len() as int;
    assert(cs.len() == n1 + n2 + 4);
    assert forall|i: int| 1 <= i < 1 + n1 implies cs[i] != '"' && cs[i] != '\\' by {
        assert(cs[i] == s1[i - 1]);
    }
    lemma_scan_plain(cs, 1, n1, Seq::empty());
    assert(cs.subrange(1, 1 + n1) =~= s1);
    assert(Seq::<char>::empty() + s1 =~= s1);
    assert(cs[1 + n1] == '\\');
    assert(cs[2 + n1] == e);
    assert forall|i: int| 3 + n1 <= i < 3 + n1 + n2 implies cs[i] != '"' && cs[i] != '\\' by {
        assert(cs[i] == s2[i - 3 - n1]);
    }
    lemma_scan_plain(cs, 3 + n1, n2, s1.push(unescape(e)));
    assert(cs.subrange(3 + n1, 3 + n1 + n2) =~= s2);
    assert(s1.push(unescape(e)) + s2 =~= s1 + seq![unescape(e)] + s2);
    assert(cs[3 + n1 + n2] == '"');
    assert(scan_string(cs, 1, Seq::empty()) == Ok::<(Seq<char>, int), int>((s1 + seq![unescape(e)] + s2, cs.len() as int)));
    lemma_lex_one_token(cs, TokenKindV::StringLiteral(s1 + seq![unescape(e)] + s2));
}

/// A string literal without escapes lexes to one string token holding its body; and in a string
/// literal, `\n` stands for a line feed, `\t` for a tab, `\"` for a double quote and `\\` for a
/// backslash, whatever plain text stands around the escape.
pub proof fn law_string_literal_escapes(s1: Seq<char>, s2: Seq<char>)
    requires
        plain_text(s1),
        plain_text(s2),
    ensures
        lex_spec(quoted(s1)) == Ok::<Seq<TokenV>, Seq<char>>(
            seq![TokenV { kind: TokenKindV::StringLiteral(s1), position: 0 }],
        ),
        lex_spec(quoted(s1 + seq!['\\', 'n'] + s2)) == Ok::<Seq<TokenV>, Seq<char>>(
            seq![TokenV { kind: TokenKindV::StringLiteral(s1 + seq!['\n'] + s2), position: 0 }],
        ),
        lex_spec(quoted(s1 + seq!['\\', 't'] + s2)) == Ok::<Seq<TokenV>, Seq<char>>(
            seq![TokenV { kind: TokenKindV::StringLiteral(s1 + seq!['\t'] + s2), position: 0 }],
        ),
        lex_spec(quoted(s1 + seq!['\\', '"'] + s2)) == Ok::<Seq<TokenV>, Seq<char>>(
            seq![TokenV { kind: TokenKindV::StringLiteral(s1 + seq!['"'] + s2), position: 0 }],
        ),
        lex_spec(quoted(s1 + seq!['\\', '\\'] + s2)) == Ok::<Seq<TokenV>, Seq<char>>(
            seq![TokenV { kind: TokenKindV::StringLiteral(s1 + seq!['\\'] + s2), position: 0 }],
        ),
{
    let cs = quoted(s1);
    let n1 = s1.len() as int;
    assert forall|i: int| 1 <= i < 1 + n1 implies cs[i] != '"' && cs[i] != '\\' by {
        assert(cs[i] == s1[i - 1]);
    }
    lemma_scan_plain(cs, 1, n1, Seq::empty());
    assert(cs.subrange(1, 1 + n1) =~= s1);
    assert(Seq::<char>::empty() + s1 =~= s1);
    assert(cs[1 + n1] == '"');
    lemma_lex_one_token(cs, TokenKindV::StringLiteral(s1));
    lemma_one_escape(s1, 'n', s2);
    lemma_one_escape(s1, 't', s2);
    lemma_one_escape(s1, '"', s2);
    lemma_one_escape(s1, '\\', s2);
}

} // verus!
