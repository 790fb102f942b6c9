//! Turns source text into tokens.
use vstd::prelude::*;
use vstd::utf8::{encode_utf8, encode_scalar, char_is_scalar};
use vstd::string::StringSliceAdditionalSpecFns;
use crate::diagnostics::SyntaxError;
use crate::text::{nat_decimal, owned, push_str, push_char, push_u64, chars_of};
use crate::token::{Token, TokenKind, TokenKindV, TokenV};

verus! {

/// Whether `c` is white space in Unicode's sense (what `char::is_whitespace` tests).
pub open spec fn is_ws(c: char) -> bool {
    let v = c as u32;
    (9 <= v <= 13) || v == 32 || v == 0x85 || v == 0xA0 || v == 0x1680 || (0x2000 <= v <= 0x200A)
        || v == 0x2028 || v == 0x2029 || v == 0x202F || v == 0x205F || v == 0x3000
}

/// Whether `c` is an ASCII digit.
pub open spec fn is_digit(c: char) -> bool {
    48 <= c as u32 <= 57
}

/// Whether `c` is an ASCII letter.
pub open spec fn is_alpha(c: char) -> bool {
    (65 <= c as u32 <= 90) || (97 <= c as u32 <= 122)
}

/// Whether an identifier may start with `c`: an ASCII letter or `_`.
pub open spec fn is_ident_start(c: char) -> bool {
    is_alpha(c) || c == '_'
}

/// Whether an identifier may continue with `c`: an ASCII letter, digit or `_`.
pub open spec fn is_ident_part(c: char) -> bool {
    is_alpha(c) || is_digit(c) || c == '_'
}

/// The ASCII lowercase of `c`.
pub open spec fn ascii_lower(c: char) -> char {
    if 65 <= c as u32 <= 90 {
        ((c as u32) + 32) as char
    } else {
        c
    }
}

/// The ASCII lowercase of a word.
pub open spec fn lower(w: Seq<char>) -> Seq<char> {
    w.map_values(|c: char| ascii_lower(c))
}

/// The byte offset of the character at index `i` in the UTF-8 encoding of `cs`.
pub open spec fn byte_pos(cs: Seq<char>, i: int) -> nat {
    encode_utf8(cs.take(i)).len()
}

/// The number of bytes that `c` takes in UTF-8.
pub open spec fn width(c: char) -> nat {
    encode_scalar(c as u32).len()
}

/// The end of the identifier characters starting at `j`.
pub open spec fn scan_ident(cs: Seq<char>, j: int) -> int
    decreases cs.len() - j,
{
    if 0 <= j < cs.len() && is_ident_part(cs[j]) {
        scan_ident(cs, j + 1)
    } else {
        j
    }
}

/// The end of the digits (with at most one dot) starting at `j`, and whether a dot was taken.
pub open spec fn scan_number(cs: Seq<char>, j: int, has_dot: bool) -> (int, bool)
    decreases cs.len() - j,
{
    if 0 <= j < cs.len() {
        if is_digit(cs[j]) {
            scan_number(cs, j + 1, has_dot)
        } else if cs[j] == '.' && !has_dot {
            scan_number(cs, j + 1, true)
        } else {
            (j, has_dot)
        }
    } else {
        (j, has_dot)
    }
}

/// The character that an escape `\c` stands for.
pub open spec fn unescape(c: char) -> char {
    if c == 'n' {
        '\n'
    } else if c == 't' {
        '\t'
    } else {
        c
    }
}

/// The rest of a string literal from `j`, given the characters `acc` already read: its value and
/// the index past the closing quote; or the index of a backslash that ends the input, or -1 when
/// the input ends inside the literal.
pub open spec fn scan_string(cs: Seq<char>, j: int, acc: Seq<char>) -> Result<(Seq<char>, int), int>
    decreases cs.len() - j,
{
    if j < 0 || j >= cs.len() {
        Err(-1)
    } else if cs[j] == '"' {
        Ok((acc, j + 1))
    } else if cs[j] == '\\' {
        if j + 1 >= cs.len() {
            Err(j)
        } else {
            scan_string(cs, j + 2, acc.push(unescape(cs[j + 1])))
        }
    } else {
        scan_string(cs, j + 1, acc.push(cs[j]))
    }
}

/// The value of a sequence of decimal digits.
pub open spec fn decimal_value(s: Seq<char>) -> int
    decreases s.len(),
{
    if s.len() == 0 {
        0
    } else {
        decimal_value(s.drop_last()) * 10 + ((s.last() as u32) - 48)
    }
}

/// The token kind of a word: `true` and `false` are booleans and the keywords are keywords, in
/// any letter case; every other word is an identifier.
pub open spec fn word_kind(w: Seq<char>) -> TokenKindV {
    let l = lower(w);
    if l == "true"@ {
        TokenKindV::BoolLiteral(true)
    } else if l == "false"@ {
        TokenKindV::BoolLiteral(false)
    } else if l == "echo"@ {
        TokenKindV::Echo
    } else if l == "let"@ {
        TokenKindV::Let
    } else if l == "fix"@ {
        TokenKindV::Fix
    } else if l == "if"@ {
        TokenKindV::If
    } else if l == "else"@ {
        TokenKindV::Else
    } else if l == "while"@ {
        TokenKindV::While
    } else if l == "break"@ {
        TokenKindV::Break
    } else if l == "continue"@ {
        TokenKindV::Continue
    } else {
        TokenKindV::Identifier(w)
    }
}

/// Whether the character after index `i` is `c`.
pub open spec fn next_is(cs: Seq<char>, i: int, c: char) -> bool {
    i + 1 < cs.len() && cs[i + 1] == c
}

/// A token of one character, or of two when the second is `second`.
pub open spec fn one_or_two(cs: Seq<char>, i: int, second: char, one: TokenKindV, two: TokenKindV) -> Result<(TokenKindV, int), Seq<char>> {
    if next_is(cs, i, second) {
        Ok((two, i + 2))
    } else {
        Ok((one, i + 1))
    }
}

/// The message for a character that starts no token.
pub open spec fn unexpected_char_message(c: char, pos: nat) -> Seq<char> {
    "unexpected character `"@ + seq![c] + "` at position "@ + nat_decimal(pos)
}

/// The message for a lone `&` or `|`.
pub open spec fn lone_char_message(c: char, pos: nat) -> Seq<char> {
    "unexpected character `"@ + seq![c] + "` at position "@ + nat_decimal(pos) + "; did you mean `"@ + seq![c, c] + "`?"@
}

/// The message for a float literal that ends with its dot.
pub open spec fn invalid_float_message(lit: Seq<char>, pos: nat) -> Seq<char> {
    "invalid float literal `"@ + lit + "` at position "@ + nat_decimal(pos)
}

/// The message for an integer literal beyond `i64`.
pub open spec fn int_overflow_message(lit: Seq<char>, pos: nat) -> Seq<char> {
    "failed to parse integer literal `"@ + lit + "` at position "@ + nat_decimal(pos) + ": number too large to fit in target type"@
}

/// The message for a backslash at the end of the input inside a string literal.
pub open spec fn unterminated_escape_message(pos: nat) -> Seq<char> {
    "unterminated escape sequence starting at position "@ + nat_decimal(pos)
}

/// The message for a string literal that the input ends inside.
pub open spec fn unterminated_string_message(pos: nat) -> Seq<char> {
    "unterminated string literal starting at position "@ + nat_decimal(pos)
}

/// The token that starts at index `i` (not white space) and the index past it, or the error.
pub open spec fn scan_token(cs: Seq<char>, i: int) -> Result<(TokenKindV, int), Seq<char>> {
    let c = cs[i];
    let p = byte_pos(cs, i);
    if c == '(' {
        Ok((TokenKindV::LParen, i + 1))
    } else if c == ')' {
        Ok((TokenKindV::RParen, i + 1))
    } else if c == '{' {
        Ok((TokenKindV::LBrace, i + 1))
    } else if c == '}' {
        Ok((TokenKindV::RBrace, i + 1))
    } else if c == '[' {
        Ok((TokenKindV::LBracket, i + 1))
    } else if c == ']' {
        Ok((TokenKindV::RBracket, i + 1))
    } else if c == ',' {
        Ok((TokenKindV::Comma, i + 1))
    } else if c == ':' {
        Ok((TokenKindV::Colon, i + 1))
    } else if c == ';' {
        Ok((TokenKindV::Semicolon, i + 1))
    } else if c == '+' {
        if next_is(cs, i, '+') {
            Ok((TokenKindV::PlusPlus, i + 2))
        } else {
            one_or_two(cs, i, '=', TokenKindV::Plus, TokenKindV::PlusEquals)
        }
    } else if c == '-' {
        if next_is(cs, i, '-') {
            Ok((TokenKindV::MinusMinus, i + 2))
        } else {
            one_or_two(cs, i, '=', TokenKindV::Minus, TokenKindV::MinusEquals)
        }
    } else if c == '*' {
        one_or_two(cs, i, '=', TokenKindV::Star, TokenKindV::StarEquals)
    } else if c == '/' {
        one_or_two(cs, i, '=', TokenKindV::Slash, TokenKindV::SlashEquals)
    } else if c == '%' {
        one_or_two(cs, i, '=', TokenKindV::Percent, TokenKindV::PercentEquals)
    } else if c == '=' {
        if next_is(cs, i, '>') {
            Ok((TokenKindV::Arrow, i + 2))
        } else {
            one_or_two(cs, i, '=', TokenKindV::Equals, TokenKindV::EqualEqual)
        }
    } else if c == '!' {
        one_or_two(cs, i, '=', TokenKindV::Bang, TokenKindV::BangEqual)
    } else if c == '<' {
        one_or_two(cs, i, '=', TokenKindV::Less, TokenKindV::LessEqual)
    } else if c == '>' {
        one_or_two(cs, i, '=', TokenKindV::Greater, TokenKindV::GreaterEqual)
    } else if c == '&' {
        if next_is(cs, i, '&') {
            Ok((TokenKindV::DoubleAmpersand, i + 2))
        } else {
            Err(lone_char_message('&', p))
        }
    } else if c == '|' {
        if next_is(cs, i, '|') {
            Ok((TokenKindV::DoublePipe, i + 2))
        } else {
            Err(lone_char_message('|', p))
        }
    } else if c == '"' {
        match scan_string(cs, i + 1, Seq::empty()) {
            Ok((s, j)) => Ok((TokenKindV::StringLiteral(s), j)),
            Err(e) => if e < 0 {
                Err(unterminated_string_message(p))
            } else {
                Err(unterminated_escape_message(byte_pos(cs, e)))
            },
        }
    } else if is_digit(c) {
        let (j, has_dot) = scan_number(cs, i + 1, false);
        let lit = cs.subrange(i, j);
        if lit.last() == '.' {
            Err(invalid_float_message(lit, p))
        } else if has_dot {
            Ok((TokenKindV::FloatLiteral(lit), j))
        } else if decimal_value(lit) > i64::MAX {
            Err(int_overflow_message(lit, p))
        } else {
            Ok((TokenKindV::IntegerLiteral(decimal_value(lit) as i64), j))
        }
    } else if is_ident_start(c) {
        let j = scan_ident(cs, i + 1);
        Ok((word_kind(cs.subrange(i, j)), j))
    } else {
        Err(unexpected_char_message(c, p))
    }
}

/// The tokens of `cs` from index `i` on, or the first error.
pub open spec fn lex_from(cs: Seq<char>, i: int) -> Result<Seq<TokenV>, Seq<char>>
    decreases cs.len() - i,
{
    if i < 0 || i >= cs.len() {
        Ok(Seq::empty())
    } else if is_ws(cs[i]) {
        lex_from(cs, i + 1)
    } else {
        match scan_token(cs, i) {
            Err(e) => Err(e),
            Ok((k, j)) => if j <= i || j > cs.len() {
                Err(Seq::empty())
            } else {
                match lex_from(cs, j) {
                    Ok(rest) => Ok(seq![TokenV { kind: k, position: byte_pos(cs, i) }] + rest),
                    Err(e) => Err(e),
                }
            },
        }
    }
}

/// The tokens of a source text, or the message of the first error.
pub open spec fn lex_spec(source: Seq<char>) -> Result<Seq<TokenV>, Seq<char>> {
    lex_from(source, 0)
}

/// The views of a list of tokens.
pub open spec fn tokens_view(ts: Seq<Token>) -> Seq<TokenV> {
    ts.map_values(|t: Token| t@)
}

proof fn lemma_encode_append(a: Seq<char>, b: Seq<char>)
    ensures
        encode_utf8(a + b) == encode_utf8(a) + encode_utf8(b),
    decreases a.len(),
{
    if a.len() == 0 {
        assert(a + b =~= b);
        assert(encode_utf8(a) =~= Seq::<u8>::empty());
        assert(encode_utf8(a) + encode_utf8(b) =~= encode_utf8(b));
    } else {
        lemma_encode_append(a.drop_first(), b);
        assert((a + b).drop_first() =~= a.drop_first() + b);
        assert((a + b)[0] == a[0]);
        assert(encode_utf8(a + b) =~= encode_scalar(a[0] as u32) + encode_utf8(a.drop_first() + b));
    }
}

proof fn lemma_byte_pos_step(cs: Seq<char>, i: int)
    requires
        0 <= i < cs.len(),
    ensures
        byte_pos(cs, i + 1) == byte_pos(cs, i) + width(cs[i]),
{
    assert(cs.take(i + 1) =~= cs.take(i) + seq![cs[i]]);
    lemma_encode_append(cs.take(i), seq![cs[i]]);
    assert(seq![cs[i]].drop_first() =~= Seq::<char>::empty());
    assert(encode_utf8(seq![cs[i]]) =~= encode_scalar(cs[i] as u32) + encode_utf8(Seq::<char>::empty()));
}

proof fn lemma_byte_pos_mono(cs: Seq<char>, i: int, j: int)
    requires
        0 <= i <= j <= cs.len(),
    ensures
        byte_pos(cs, i) <= byte_pos(cs, j),
    decreases j - i,
{
    if i < j {
        lemma_byte_pos_step(cs, j - 1);
        lemma_byte_pos_mono(cs, i, j - 1);
    }
}

proof fn lemma_decimal_mono(s: Seq<char>, k: int)
    requires
        0 <= k <= s.len(),
        forall|m: int| 0 <= m < s.len() ==> is_digit(#[trigger] s[m]),
    ensures
        decimal_value(s.take(k)) <= decimal_value(s),
        0 <= decimal_value(s.take(k)),
    decreases s.len(),
{
    if k < s.len() {
        assert(s.drop_last().take(k) =~= s.take(k));
        lemma_decimal_mono(s.drop_last(), k);
        lemma_decimal_mono(s.drop_last(), s.len() - 1);
        assert(s.drop_last().take(s.len() - 1) =~= s.drop_last());
    } else {
        assert(s.take(k) =~= s);
        if s.len() > 0 {
            lemma_decimal_mono(s.drop_last(), s.len() - 1);
            assert(s.drop_last().take(s.len() - 1) =~= s.drop_last());
        }
    }
}

/// Every character takes at least one byte.
proof fn lemma_width_positive(c: char)
    ensures
        width(c) >= 1,
{
}

/// Whether the lexeme of token `t` starts at character `j` of `cs`: `j` is not white space, `t`
/// lies at its byte position, and the token that starts there is `t`'s kind, its lexeme ending
/// before the next token (`next`, a byte position) starts.
pub open spec fn lexeme_at(cs: Seq<char>, t: TokenV, j: int, next: int) -> bool {
    &&& 0 <= j < cs.len()
    &&& !is_ws(cs[j])
    &&& byte_pos(cs, j) == t.position
    &&& scan_token(cs, j) matches Ok((k, e)) && k == t.kind && j < e <= cs.len() && byte_pos(cs, e) <= next
}

/// Whether the tokens `ts` lie at strictly increasing byte positions, each at or after `from`, each
/// where its lexeme starts in `cs`, and each lexeme ending before the next token starts.
pub open spec fn positions_ok(cs: Seq<char>, ts: Seq<TokenV>, from: nat) -> bool {
    &&& forall|a: int, b: int| 0 <= a < b < ts.len() ==> ts[a].position < ts[b].position
    &&& forall|k: int| 0 <= k < ts.len() ==> from <= #[trigger] ts[k].position
    &&& forall|k: int| #![trigger ts[k]] 0 <= k < ts.len() ==> exists|j: int| #![trigger byte_pos(cs, j)]
            lexeme_at(cs, ts[k], j, if k + 1 < ts.len() { ts[k + 1].position as int } else { encode_utf8(cs).len() as int })
}

proof fn lemma_lex_positions(cs: Seq<char>, i: int)
    requires
        0 <= i <= cs.len(),
    ensures
        lex_from(cs, i) matches Ok(ts) ==> positions_ok(cs, ts, byte_pos(cs, i)),
    decreases cs.len() - i,
{
    if i < cs.len() {
        lemma_byte_pos_step(cs, i);
        lemma_width_positive(cs[i]);
        if is_ws(cs[i]) {
            lemma_lex_positions(cs, i + 1);
        } else if let Ok((k, j)) = scan_token(cs, i) {
            if i < j <= cs.len() {
                lemma_lex_positions(cs, j);
                lemma_byte_pos_mono(cs, i + 1, j);
                if let Ok(rest) = lex_from(cs, j) {
                    let first = TokenV { kind: k, position: byte_pos(cs, i) };
                    let ts = seq![first] + rest;
                    assert(lex_from(cs, i) == Ok::<Seq<TokenV>, Seq<char>>(ts));
                    assert forall|a: int| 0 <= a < rest.len() implies #[trigger] ts[a + 1] == rest[a] by {}
                    assert forall|a: int, b: int| 0 <= a < b < ts.len() implies ts[a].position < ts[b].position by {
                        assert(ts[b] == rest[b - 1]);
                        if a > 0 {
                            assert(ts[a] == rest[a - 1]);
                        }
                    }
                    assert forall|m: int| 0 <= m < ts.len() implies byte_pos(cs, i) <= #[trigger] ts[m].position by {
                        if m > 0 {
                            assert(ts[m] == rest[m - 1]);
                        }
                    }
                    assert forall|m: int| #![trigger ts[m]] 0 <= m < ts.len() implies exists|p: int| #![trigger byte_pos(cs, p)]
                        lexeme_at(cs, ts[m], p, if m + 1 < ts.len() { ts[m + 1].position as int } else { encode_utf8(cs).len() as int }) by {
                        if m == 0 {
                            assert(byte_pos(cs, i) == ts[0].position);
                            lemma_byte_pos_mono(cs, j, cs.len() as int);
                            assert(cs.take(cs.len() as int) =~= cs);
                            if rest.len() > 0 {
                                assert(ts[1] == rest[0]);
                            }
                            assert(lexeme_at(cs, ts[m], i, if m + 1 < ts.len() { ts[m + 1].position as int } else { encode_utf8(cs).len() as int }));
                        } else {
                            assert(ts[m] == rest[m - 1]);
                            if m + 1 < ts.len() {
                                assert(ts[m + 1] == rest[m]);
                            }
                        }
                    }
                }
            }
        }
    }
}

/// The tokens of a source lie at strictly increasing byte positions; each lies where its lexeme
/// starts (a character that is not white space, from which that token kind is scanned) and its
/// lexeme ends before the next token starts, so lexemes do not overlap.
pub proof fn law_token_positions(source: Seq<char>)
    ensures
        lex_spec(source) matches Ok(ts) ==> positions_ok(source, ts, 0),
{
    lemma_lex_positions(source, 0);
}

/// Whether `c` is white space.
pub fn is_ws_char(c: char) -> (r: bool)
    ensures
        r == is_ws(c),
{
    let v = c as u32;
    (9 <= v && v <= 13) || v == 32 || v == 0x85 || v == 0xA0 || v == 0x1680 || (0x2000 <= v && v <= 0x200A)
        || v == 0x2028 || v == 0x2029 || v == 0x202F || v == 0x205F || v == 0x3000
}

fn is_digit_char(c: char) -> (r: bool)
    ensures
        r == is_digit(c),
{
    let v = c as u32;
    48 <= v && v <= 57
}

fn is_alpha_char(c: char) -> (r: bool)
    ensures
        r == is_alpha(c),
{
    let v = c as u32;
    (65 <= v && v <= 90) || (97 <= v && v <= 122)
}

/// Whether an identifier may start with `c`.
pub fn is_identifier_start(c: char) -> (r: bool)
    ensures
        r == is_ident_start(c),
{
    is_alpha_char(c) || c == '_'
}

/// Whether an identifier may continue with `c`.
pub fn is_identifier_part(c: char) -> (r: bool)
    ensures
        r == is_ident_part(c),
{
    is_alpha_char(c) || is_digit_char(c) || c == '_'
}

fn lower_char(c: char) -> (r: char)
    ensures
        r == ascii_lower(c),
{
    let v = c as u32;
    if 65 <= v && v <= 90 {
        ((v as u8) + 32) as char
    } else {
        c
    }
}

/// The ASCII lowercase of a string.
pub fn ascii_lowercase(s: &str) -> (r: String)
    ensures
        r@ == lower(s@),
{
    let cs = chars_of(s);
    let mut out = String::new();
    let mut k: usize = 0;
    while k < cs.len()
        invariant
            k <= cs@.len(),
            cs@ == s@,
            out@ == lower(s@).take(k as int),
        decreases cs@.len() - k,
    {
        push_char(&mut out, lower_char(cs[k]));
        assert(lower(s@).take(k + 1) =~= lower(s@).take(k as int).push(ascii_lower(cs@[k as int])));
        k = k + 1;
    }
    assert(lower(s@).take(k as int) =~= lower(s@));
    out
}

fn char_width(c: char) -> (w: usize)
    ensures
        w == width(c),
{
    proof { char_is_scalar(c); }
    let v = c as u32;
    if v <= 0x7F {
        1
    } else if v <= 0x7FF {
        2
    } else if v <= 0xFFFF {
        3
    } else {
        4
    }
}

/// The characters `cs[from..to]` as a string.
fn string_of(cs: &Vec<char>, from: usize, to: usize) -> (r: String)
    requires
        from <= to <= cs@.len(),
    ensures
        r@ == cs@.subrange(from as int, to as int),
{
    let mut s = String::new();
    let mut k = from;
    while k < to
        invariant
            from <= k <= to <= cs@.len(),
            s@ == cs@.subrange(from as int, k as int),
        decreases to - k,
    {
        push_char(&mut s, cs[k]);
        assert(cs@.subrange(from as int, k + 1) =~= cs@.subrange(from as int, k as int).push(cs@[k as int]));
        k = k + 1;
    }
    s
}

fn position_message(prefix: &str, pos: usize) -> (r: String)
    ensures
        r@ == prefix@ + nat_decimal(pos as nat),
{
    let mut m = owned(prefix);
    push_u64(&mut m, pos as u64);
    m
}

/// Advances from index `j` at byte `bj` past one character.
fn step(cs: &Vec<char>, j: usize, bj: usize) -> (r: (usize, usize))
    requires
        j < cs@.len(),
        bj == byte_pos(cs@, j as int),
        byte_pos(cs@, cs@.len() as int) <= usize::MAX,
    ensures
        r.0 == j + 1,
        r.1 == byte_pos(cs@, j + 1),
{
    proof {
        lemma_byte_pos_step(cs@, j as int);
        lemma_byte_pos_mono(cs@, j + 1, cs@.len() as int);
    }
    let n = cs.len();
    assert(j + 1 <= n);
    (j + 1, bj + char_width(cs[j]))
}

fn scan_token_exec(cs: &Vec<char>, i: usize, b: usize) -> (r: Result<(TokenKind, usize, usize), SyntaxError>)
    requires
        i < cs@.len(),
        !is_ws(cs@[i as int]),
        b == byte_pos(cs@, i as int),
        byte_pos(cs@, cs@.len() as int) <= usize::MAX,
    ensures
        match scan_token(cs@, i as int) {
            Ok((k, j)) => r matches Ok((kind, jj, bj)) && kind@ == k && jj == j && i < jj <= cs@.len()
                && bj == byte_pos(cs@, jj as int),
            Err(m) => r matches Err(e) && e@ == m,
        },
{
    let n = cs.len();
    let c = cs[i];
    let (i1, b1) = step(cs, i, b);
    let two_ok = i + 1 < n;
    if c == '(' {
        Ok((TokenKind::LParen, i1, b1))
    } else if c == ')' {
        Ok((TokenKind::RParen, i1, b1))
    } else if c == '{' {
        Ok((TokenKind::LBrace, i1, b1))
    } else if c == '}' {
        Ok((TokenKind::RBrace, i1, b1))
    } else if c == '[' {
        Ok((TokenKind::LBracket, i1, b1))
    } else if c == ']' {
        Ok((TokenKind::RBracket, i1, b1))
    } else if c == ',' {
        Ok((TokenKind::Comma, i1, b1))
    } else if c == ':' {
        Ok((TokenKind::Colon, i1, b1))
    } else if c == ';' {
        Ok((TokenKind::Semicolon, i1, b1))
    } else if c == '+' || c == '-' || c == '*' || c == '/' || c == '%' || c == '=' || c == '!' || c == '<' || c == '>' || c == '&' || c == '|' {
        let next: char = if two_ok { cs[i + 1] } else { ' ' };
        let (i2, b2) = if two_ok { step(cs, i1, b1) } else { (i1, b1) };
        if c == '+' {
            if two_ok && next == '+' {
                Ok((TokenKind::PlusPlus, i2, b2))
            } else if two_ok && next == '=' {
                Ok((TokenKind::PlusEquals, i2, b2))
            } else {
                Ok((TokenKind::Plus, i1, b1))
            }
        } else if c == '-' {
            if two_ok && next == '-' {
                Ok((TokenKind::MinusMinus, i2, b2))
            } else if two_ok && next == '=' {
                Ok((TokenKind::MinusEquals, i2, b2))
            } else {
                Ok((TokenKind::Minus, i1, b1))
            }
        } else if c == '*' {
            if two_ok && next == '=' {
                Ok((TokenKind::StarEquals, i2, b2))
            } else {
                Ok((TokenKind::Star, i1, b1))
            }
        } else if c == '/' {
            if two_ok && next == '=' {
                Ok((TokenKind::SlashEquals, i2, b2))
            } else {
                Ok((TokenKind::Slash, i1, b1))
            }
        } else if c == '%' {
            if two_ok && next == '=' {
                Ok((TokenKind::PercentEquals, i2, b2))
            } else {
                Ok((TokenKind::Percent, i1, b1))
            }
        } else if c == '=' {
            if two_ok && next == '>' {
                Ok((TokenKind::Arrow, i2, b2))
            } else if two_ok && next == '=' {
                Ok((TokenKind::EqualEqual, i2, b2))
            } else {
                Ok((TokenKind::Equals, i1, b1))
            }
        } else if c == '!' {
            if two_ok && next == '=' {
                Ok((TokenKind::BangEqual, i2, b2))
            } else {
                Ok((TokenKind::Bang, i1, b1))
            }
        } else if c == '<' {
            if two_ok && next == '=' {
                Ok((TokenKind::LessEqual, i2, b2))
            } else {
                Ok((TokenKind::Less, i1, b1))
            }
        } else if c == '>' {
            if two_ok && next == '=' {
                Ok((TokenKind::GreaterEqual, i2, b2))
            } else {
                Ok((TokenKind::Greater, i1, b1))
            }
        } else if c == '&' {
            if two_ok && next == '&' {
                Ok((TokenKind::DoubleAmpersand, i2, b2))
            } else {
                let mut m = position_message("unexpected character `&` at position ", b);
                push_str(&mut m, "; did you mean `&&`?");
                proof { reveal_strlit("unexpected character `&` at position "); }
                assert("unexpected character `&` at position "@ =~= "unexpected character `"@ + seq!['&'] + "` at position "@) by {
                    reveal_strlit("unexpected character `");
                    reveal_strlit("` at position ");
                }
                assert("; did you mean `&&`?"@ =~= "; did you mean `"@ + seq!['&', '&'] + "`?"@) by {
                    reveal_strlit("; did you mean `&&`?");
                    reveal_strlit("; did you mean `");
                    reveal_strlit("`?");
                }
                Err(SyntaxError::new(m))
            }
        } else {
            if two_ok && next == '|' {
                Ok((TokenKind::DoublePipe, i2, b2))
            } else {
                let mut m = position_message("unexpected character `|` at position ", b);
                push_str(&mut m, "; did you mean `||`?");
                proof { reveal_strlit("unexpected character `|` at position "); }
                assert("unexpected character `|` at position "@ =~= "unexpected character `"@ + seq!['|'] + "` at position "@) by {
                    reveal_strlit("unexpected character `");
                    reveal_strlit("` at position ");
                }
                assert("; did you mean `||`?"@ =~= "; did you mean `"@ + seq!['|', '|'] + "`?"@) by {
                    reveal_strlit("; did you mean `||`?");
                    reveal_strlit("; did you mean `");
                    reveal_strlit("`?");
                }
                Err(SyntaxError::new(m))
            }
        }
    } else if c == '"' {
        scan_string_exec(cs, i, b)
    } else if is_digit_char(c) {
        scan_number_exec(cs, i, b)
    } else if is_identifier_start(c) {
        let mut j = i1;
        let mut bj = b1;
        while j < n && is_identifier_part(cs[j])
            invariant
                n == cs@.len(),
                i < j <= n,
                bj == byte_pos(cs@, j as int),
                byte_pos(cs@, cs@.len() as int) <= usize::MAX,
                scan_ident(cs@, i + 1) == scan_ident(cs@, j as int),
            decreases n - j,
        {
            let (j2, b2) = step(cs, j, bj);
            j = j2;
            bj = b2;
        }
        let word = string_of(cs, i, j);
        let mut lowered = String::new();
        let mut k = i;
        while k < j
            invariant
                i <= k <= j <= cs@.len(),
                lowered@ == lower(cs@.subrange(i as int, k as int)),
            decreases j - k,
        {
            push_char(&mut lowered, lower_char(cs[k]));
            assert(lower(cs@.subrange(i as int, k + 1)) =~= lower(cs@.subrange(i as int, k as int)).push(ascii_lower(cs@[k as int])));
            k = k + 1;
        }
        let kind = if lowered == owned("true") {
            TokenKind::BoolLiteral(true)
        } else if lowered == owned("false") {
            TokenKind::BoolLiteral(false)
        } else if lowered == owned("echo") {
            TokenKind::Echo
        } else if lowered == owned("let") {
            TokenKind::Let
        } else if lowered == owned("fix") {
            TokenKind::Fix
        } else if lowered == owned("if") {
            TokenKind::If
        } else if lowered == owned("else") {
            TokenKind::Else
        } else if lowered == owned("while") {
            TokenKind::While
        } else if lowered == owned("break") {
            TokenKind::Break
        } else if lowered == owned("continue") {
            TokenKind::Continue
        } else {
            TokenKind::Identifier(word)
        };
        Ok((kind, j, bj))
    } else {
        let mut m = owned("unexpected character `");
        push_char(&mut m, c);
        push_str(&mut m, "` at position ");
        push_u64(&mut m, b as u64);
        Err(SyntaxError::new(m))
    }
}

fn scan_string_exec(cs: &Vec<char>, i: usize, b: usize) -> (r: Result<(TokenKind, usize, usize), SyntaxError>)
    requires
        i < cs@.len(),
        cs@[i as int] == '"',
        b == byte_pos(cs@, i as int),
        byte_pos(cs@, cs@.len() as int) <= usize::MAX,
    ensures
        match scan_string(cs@, i + 1, Seq::empty()) {
            Ok((s, j)) => r matches Ok((kind, jj, bj)) && kind@ == TokenKindV::StringLiteral(s) && jj == j
                && i < jj <= cs@.len() && bj == byte_pos(cs@, jj as int),
            Err(e) => r matches Err(x) && x@ == (if e < 0 {
                unterminated_string_message(b as nat)
            } else {
                unterminated_escape_message(byte_pos(cs@, e))
            }),
        },
{
    let n = cs.len();
    let (mut j, mut bj) = step(cs, i, b);
    let mut value = String::new();
    while j < n
        invariant
            n == cs@.len(),
            i < j <= n,
            bj == byte_pos(cs@, j as int),
            byte_pos(cs@, cs@.len() as int) <= usize::MAX,
            scan_string(cs@, i + 1, Seq::empty()) == scan_string(cs@, j as int, value@),
        decreases n - j,
    {
        let ch = cs[j];
        if ch == '"' {
            let (j2, b2) = step(cs, j, bj);
            return Ok((TokenKind::StringLiteral(value), j2, b2));
        } else if ch == '\\' {
            if j + 1 >= n {
                let m = position_message("unterminated escape sequence starting at position ", bj);
                return Err(SyntaxError::new(m));
            }
            let escaped = cs[j + 1];
            let out = if escaped == 'n' {
                '\n'
            } else if escaped == 't' {
                '\t'
            } else {
                escaped
            };
            push_char(&mut value, out);
            let (j2, b2) = step(cs, j, bj);
            let (j3, b3) = step(cs, j2, b2);
            j = j3;
            bj = b3;
        } else {
            push_char(&mut value, ch);
            let (j2, b2) = step(cs, j, bj);
            j = j2;
            bj = b2;
        }
    }
    let m = position_message("unterminated string literal starting at position ", b);
    Err(SyntaxError::new(m))
}

fn scan_number_exec(cs: &Vec<char>, i: usize, b: usize) -> (r: Result<(TokenKind, usize, usize), SyntaxError>)
    requires
        i < cs@.len(),
        is_digit(cs@[i as int]),
        b == byte_pos(cs@, i as int),
        byte_pos(cs@, cs@.len() as int) <= usize::MAX,
    ensures
        ({
            let (j, has_dot) = scan_number(cs@, i + 1, false);
            let lit = cs@.subrange(i as int, j);
            if lit.last() == '.' {
                r matches Err(x) && x@ == invalid_float_message(lit, b as nat)
            } else if has_dot {
                r matches Ok((kind, jj, bj)) && kind@ == TokenKindV::FloatLiteral(lit) && jj == j && i < jj <= cs@.len()
                    && bj == byte_pos(cs@, jj as int)
            } else if decimal_value(lit) > i64::MAX {
                r matches Err(x) && x@ == int_overflow_message(lit, b as nat)
            } else {
                r matches Ok((kind, jj, bj)) && kind@ == TokenKindV::IntegerLiteral(decimal_value(lit) as i64) && jj == j
                    && i < jj <= cs@.len() && bj == byte_pos(cs@, jj as int)
            }
        }),
{
    let n = cs.len();
    let (mut j, mut bj) = step(cs, i, b);
    let mut has_dot = false;
    while j < n && (is_digit_char(cs[j]) || (cs[j] == '.' && !has_dot))
        invariant
            n == cs@.len(),
            i < j <= n,
            bj == byte_pos(cs@, j as int),
            byte_pos(cs@, cs@.len() as int) <= usize::MAX,
            scan_number(cs@, i + 1, false) == scan_number(cs@, j as int, has_dot),
            forall|m: int| i <= m < j ==> is_digit(#[trigger] cs@[m]) || (has_dot && cs@[m] == '.'),
        decreases n - j,
    {
        if cs[j] == '.' {
            has_dot = true;
        }
        let (j2, b2) = step(cs, j, bj);
        j = j2;
        bj = b2;
    }
    assert(scan_number(cs@, j as int, has_dot) == (j as int, has_dot));
    let literal = string_of(cs, i, j);
    let ghost lit = cs@.subrange(i as int, j as int);
    assert(lit.last() == cs@[j - 1]);
    if cs[j - 1] == '.' {
        let mut m = owned("invalid float literal `");
        push_str(&mut m, literal.as_str());
        push_str(&mut m, "` at position ");
        push_u64(&mut m, b as u64);
        return Err(SyntaxError::new(m));
    }
    if has_dot {
        return Ok((TokenKind::FloatLiteral(literal), j, bj));
    }
    assert(forall|m: int| 0 <= m < lit.len() ==> is_digit(#[trigger] lit[m]));
    match digits_value(cs, i, j) {
        Some(v) => Ok((TokenKind::IntegerLiteral(v), j, bj)),
        None => {
            let mut m = owned("failed to parse integer literal `");
            push_str(&mut m, literal.as_str());
            push_str(&mut m, "` at position ");
            push_u64(&mut m, b as u64);
            push_str(&mut m, ": number too large to fit in target type");
            Err(SyntaxError::new(m))
        },
    }
}

/// The value of the digits `cs[i..j]`, when it fits in `i64`.
fn digits_value(cs: &Vec<char>, i: usize, j: usize) -> (r: Option<i64>)
    requires
        i <= j <= cs@.len(),
        forall|m: int| 0 <= m < j - i ==> is_digit(#[trigger] cs@.subrange(i as int, j as int)[m]),
    ensures
        ({
            let lit = cs@.subrange(i as int, j as int);
            if decimal_value(lit) > i64::MAX {
                r is None
            } else {
                r == Some(decimal_value(lit) as i64)
            }
        }),
{
    let ghost lit = cs@.subrange(i as int, j as int);
    let mut v: u64 = 0;
    let mut k = i;
    assert(lit.take(0) =~= Seq::<char>::empty());
    while k < j
        invariant
            i <= k <= j <= cs@.len(),
            lit == cs@.subrange(i as int, j as int),
            forall|m: int| 0 <= m < lit.len() ==> is_digit(#[trigger] lit[m]),
            v as int == decimal_value(lit.take(k - i)),
            v <= i64::MAX,
        decreases j - k,
    {
        assert(lit[k - i] == cs@[k as int]);
        assert(is_digit(lit[k - i]));
        let d = (cs[k] as u32 - 48) as u64;
        assert(lit.take(k - i + 1).drop_last() =~= lit.take(k - i));
        assert(lit.take(k - i + 1).last() == cs@[k as int]);
        if v > (9223372036854775807u64 - d) / 10 {
            proof {
                assert(decimal_value(lit.take(k - i + 1)) == v * 10 + d);
                assert(v * 10 + d > 9223372036854775807) by (nonlinear_arith)
                    requires v > (9223372036854775807u64 - d) / 10, d <= 9;
                lemma_decimal_mono(lit, k - i + 1);
            }
            return None;
        }
        assert(v * 10 + d <= 9223372036854775807) by (nonlinear_arith)
            requires v <= (9223372036854775807u64 - d) / 10, d <= 9;
        v = v * 10 + d;
        k = k + 1;
    }
    assert(lit.take(j - i) =~= lit);
    Some(v as i64)
}

/// The tokens of `input`, each with the byte offset where it starts; white space separates tokens.
pub fn lex(input: &str) -> (r: Result<Vec<Token>, SyntaxError>)
    ensures
        match lex_spec(input@) {
            Ok(ts) => r matches Ok(v) && tokens_view(v@) == ts,
            Err(m) => r matches Err(e) && e@ == m,
        },
{
    let cs = chars_of(input);
    let n = cs.len();
    proof {
        assert(cs@.take(cs@.len() as int) =~= cs@);
        assert(input.spec_bytes() == encode_utf8(input@));
    }
    broadcast use vstd::slice::group_slice_axioms;
    let bytes = input.as_bytes();
    let total = bytes.len();
    assert(byte_pos(cs@, n as int) == total);
    let mut tokens: Vec<Token> = Vec::new();
    let mut i: usize = 0;
    let mut b: usize = 0;
    assert(cs@.take(0) =~= Seq::<char>::empty());
    while i < n
        invariant
            n == cs@.len(),
            cs@ == input@,
            i <= n,
            b == byte_pos(cs@, i as int),
            byte_pos(cs@, n as int) == total,
            byte_pos(cs@, cs@.len() as int) <= usize::MAX,
            match lex_from(cs@, i as int) {
                Ok(rest) => lex_from(cs@, 0) == Ok::<Seq<TokenV>, Seq<char>>(tokens_view(tokens@) + rest),
                Err(e) => lex_from(cs@, 0) == Err::<Seq<TokenV>, Seq<char>>(e),
            },
        decreases n - i,
    {
        let c = cs[i];
        if is_ws_char(c) {
            let (i2, b2) = step(&cs, i, b);
            i = i2;
            b = b2;
            continue;
        }
        match scan_token_exec(&cs, i, b) {
            Err(e) => {
                return Err(e);
            },
            Ok((kind, j, bj)) => {
                let ghost before = tokens@;
                tokens.push(Token { kind, position: b });
                assert(tokens_view(tokens@) =~= tokens_view(before) + seq![tokens@.last()@]);
                proof {
                    match lex_from(cs@, j as int) {
                        Ok(rest) => {
                            assert(tokens_view(before) + (seq![tokens@.last()@] + rest) =~= tokens_view(tokens@) + rest);
                        },
                        Err(_) => {},
                    }
                }
                i = j;
                b = bj;
            },
        }
    }
    assert(tokens_view(tokens@) + Seq::<TokenV>::empty() =~= tokens_view(tokens@));
    Ok(tokens)
}

} // verus!
