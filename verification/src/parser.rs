//! The parser: statements and expressions from tokens, by recursive descent.
//!
//! Semicolons separate statements. Besides `let`, a declaration may be written with its type
//! first: `int value = 1` declares an immutable variable and `int! value = 1` a mutable one.
use vstd::prelude::*;
use crate::ast::{ArrayElement, Assignment, AssignmentKind, AssignmentTarget, BinaryOp, ElseBranch, ElementV, ExprV, Expr, IfStatement, IfV, ElseV, IncrementOp, index_targets_view, if_wf, lemma_stmts_wf, stmt_wf, stmts_wf, IndexTarget, IndexTargetV, KindV, Literal, LiteralV, Statement, StmtV, TargetV, TypeAnnotation, TypeV, UnaryOp, VarDeclaration, WhileStatement};
use crate::diagnostics::SyntaxError;
use crate::lexer::{ascii_lowercase, lex, lex_spec, lower, tokens_view};
use crate::text::{owned, push_str};
use crate::token::{Token, TokenKind, TokenKindV, TokenV, is_plain, token_text};

verus! {

/// The kind of the token at position `i`, if there is one.
pub open spec fn kind_at(ts: Seq<TokenV>, i: int) -> Option<TokenKindV> {
    if 0 <= i < ts.len() {
        Some(ts[i].kind)
    } else {
        None
    }
}

/// Whether the token at position `i` is of kind `k`.
pub open spec fn at(ts: Seq<TokenV>, i: int, k: TokenKindV) -> bool {
    kind_at(ts, i) == Some(k)
}

/// How the token at position `i` is written in messages: `Some(..)`, or `None` past the end.
pub open spec fn peek_text(ts: Seq<TokenV>, i: int) -> Seq<char> {
    match kind_at(ts, i) {
        Some(k) => "Some("@ + token_text(k) + ")"@,
        None => "None"@,
    }
}

/// The position of the first token at or after `i` that is not a semicolon.
pub open spec fn skip_separators(ts: Seq<TokenV>, i: int) -> int
    decreases ts.len() - i,
{
    if 0 <= i < ts.len() && ts[i].kind == TokenKindV::Semicolon {
        skip_separators(ts, i + 1)
    } else {
        i
    }
}

/// Skipping separators does not move backwards, nor past the end.
pub proof fn lemma_skip_separators(ts: Seq<TokenV>, i: int)
    ensures
        skip_separators(ts, i) >= i,
        0 <= i <= ts.len() ==> skip_separators(ts, i) <= ts.len(),
    decreases ts.len() - i,
{
    if 0 <= i < ts.len() && ts[i].kind == TokenKindV::Semicolon {
        lemma_skip_separators(ts, i + 1);
    }
}

/// The position after a token of kind `k` at `i`, or the error naming what was found.
pub open spec fn expect(ts: Seq<TokenV>, i: int, k: TokenKindV) -> Result<int, Seq<char>> {
    if at(ts, i, k) {
        Ok(i + 1)
    } else {
        Err("expected token "@ + token_text(k) + ", found "@ + peek_text(ts, i))
    }
}

/// The identifier at position `i` and the position after it.
pub open spec fn identifier(ts: Seq<TokenV>, i: int) -> Result<(Seq<char>, int), Seq<char>> {
    match kind_at(ts, i) {
        None => Err("unexpected end of input while reading identifier"@),
        Some(TokenKindV::Identifier(n)) => Ok((n, i + 1)),
        Some(TokenKindV::StringLiteral(_)) => Err("string literal cannot appear where identifier is expected"@),
        Some(k) => Err("expected identifier, found "@ + token_text(k)),
    }
}

/// The binary operator of precedence level `level` (0 for `||` to 5 for `*`, `/`, `%`) that the
/// token at `i` writes, if any.
pub open spec fn op_at(ts: Seq<TokenV>, i: int, level: int) -> Option<BinaryOp> {
    match kind_at(ts, i) {
        None => None,
        Some(k) => if level == 0 {
            if k == TokenKindV::DoublePipe { Some(BinaryOp::Or) } else { None }
        } else if level == 1 {
            if k == TokenKindV::DoubleAmpersand { Some(BinaryOp::And) } else { None }
        } else if level == 2 {
            if k == TokenKindV::EqualEqual {
                Some(BinaryOp::Equal)
            } else if k == TokenKindV::BangEqual {
                Some(BinaryOp::NotEqual)
            } else {
                None
            }
        } else if level == 3 {
            if k == TokenKindV::Less {
                Some(BinaryOp::Less)
            } else if k == TokenKindV::LessEqual {
                Some(BinaryOp::LessEqual)
            } else if k == TokenKindV::Greater {
                Some(BinaryOp::Greater)
            } else if k == TokenKindV::GreaterEqual {
                Some(BinaryOp::GreaterEqual)
            } else {
                None
            }
        } else if level == 4 {
            if k == TokenKindV::Plus {
                Some(BinaryOp::Add)
            } else if k == TokenKindV::Minus {
                Some(BinaryOp::Subtract)
            } else {
                None
            }
        } else {
            if k == TokenKindV::Star {
                Some(BinaryOp::Multiply)
            } else if k == TokenKindV::Slash {
                Some(BinaryOp::Divide)
            } else if k == TokenKindV::Percent {
                Some(BinaryOp::Modulo)
            } else {
                None
            }
        },
    }
}

/// The expression of precedence level `level` at position `i` (0 to 5: binary operators,
/// left-associative; 6: prefix `!` and `-`, then a primary expression and its index accessors)
/// and the position after it.
pub open spec fn parse_level(ts: Seq<TokenV>, i: int, level: int) -> Result<(ExprV, int), Seq<char>>
    decreases ts.len() - i, 2 * (7 - level) + 1,
{
    if i < 0 || i > ts.len() || level < 0 || level > 6 {
        Err(Seq::empty())
    } else if level < 6 {
        match parse_level(ts, i, level + 1) {
            Err(e) => Err(e),
            Ok((left, j)) => if j <= i || j > ts.len() {
                Err(Seq::empty())
            } else {
                binary_rest(ts, j, level, left)
            },
        }
    } else if at(ts, i, TokenKindV::Bang) {
        match parse_level(ts, i + 1, 6) {
            Err(e) => Err(e),
            Ok((x, j)) => Ok((ExprV::Unary { op: UnaryOp::Not, expr: Box::new(x) }, j)),
        }
    } else if at(ts, i, TokenKindV::Minus) {
        match parse_level(ts, i + 1, 6) {
            Err(e) => Err(e),
            Ok((x, j)) => Ok((ExprV::Unary { op: UnaryOp::Negate, expr: Box::new(x) }, j)),
        }
    } else {
        match primary(ts, i) {
            Err(e) => Err(e),
            Ok((x, j)) => if j <= i || j > ts.len() {
                Err(Seq::empty())
            } else {
                postfix_rest(ts, j, x)
            },
        }
    }
}

/// After `left`, further operators of level `level` with their right operands, from `j`.
pub open spec fn binary_rest(ts: Seq<TokenV>, j: int, level: int, left: ExprV) -> Result<(ExprV, int), Seq<char>>
    decreases ts.len() - j, 2 * (7 - level),
{
    if j < 0 || j > ts.len() || level < 0 || level > 5 {
        Err(Seq::empty())
    } else {
        match op_at(ts, j, level) {
            None => Ok((left, j)),
            Some(op) => match parse_level(ts, j + 1, level + 1) {
                Err(e) => Err(e),
                Ok((right, k)) => if k <= j || k > ts.len() {
                    Err(Seq::empty())
                } else {
                    binary_rest(ts, k, level, ExprV::Binary { left: Box::new(left), op, right: Box::new(right) })
                },
            },
        }
    }
}

/// After `x`, index accessors `[expr]` from `j`.
pub open spec fn postfix_rest(ts: Seq<TokenV>, j: int, x: ExprV) -> Result<(ExprV, int), Seq<char>>
    decreases ts.len() - j, 0int,
{
    if j < 0 || j > ts.len() {
        Err(Seq::empty())
    } else if at(ts, j, TokenKindV::LBracket) {
        if at(ts, j + 1, TokenKindV::RBracket) {
            Err("empty index accessor is only allowed in assignment context"@)
        } else {
            match parse_level(ts, j + 1, 0) {
                Err(e) => Err(e),
                Ok((index, k)) => match expect(ts, k, TokenKindV::RBracket) {
                    Err(e) => Err(e),
                    Ok(m) => if m <= j || m > ts.len() {
                        Err(Seq::empty())
                    } else {
                        postfix_rest(ts, m, ExprV::Index { target: Box::new(x), index: Box::new(index) })
                    },
                },
            }
        }
    } else {
        Ok((x, j))
    }
}

/// A primary expression at `i`: a literal, a variable, a parenthesised expression or an array
/// literal.
pub open spec fn primary(ts: Seq<TokenV>, i: int) -> Result<(ExprV, int), Seq<char>>
    decreases ts.len() - i, 0int,
{
    if i < 0 || i > ts.len() {
        Err(Seq::empty())
    } else {
        match kind_at(ts, i) {
            None => Err("unexpected end of input"@),
            Some(TokenKindV::IntegerLiteral(v)) => Ok((ExprV::Literal(LiteralV::Integer(v)), i + 1)),
            Some(TokenKindV::FloatLiteral(t)) => Ok((ExprV::Literal(LiteralV::Float(t)), i + 1)),
            Some(TokenKindV::StringLiteral(t)) => Ok((ExprV::Literal(LiteralV::Str(t)), i + 1)),
            Some(TokenKindV::BoolLiteral(b)) => Ok((ExprV::Literal(LiteralV::Bool(b)), i + 1)),
            Some(TokenKindV::Identifier(n)) => Ok((ExprV::Variable(n), i + 1)),
            Some(TokenKindV::LParen) => match parse_level(ts, i + 1, 0) {
                Err(e) => Err(e),
                Ok((x, j)) => match expect(ts, j, TokenKindV::RParen) {
                    Err(e) => Err(e),
                    Ok(k) => Ok((x, k)),
                },
            },
            Some(TokenKindV::LBracket) => if at(ts, i + 1, TokenKindV::RBracket) {
                Ok((ExprV::Literal(LiteralV::Array(Seq::empty())), i + 2))
            } else {
                elements_rest(ts, i + 1, Seq::empty())
            },
            Some(k) => Err("unexpected token "@ + token_text(k) + " in expression"@),
        }
    }
}

/// The elements of an array literal from `j` on, after `acc`, up to and past its `]`.
pub open spec fn elements_rest(ts: Seq<TokenV>, j: int, acc: Seq<ElementV>) -> Result<(ExprV, int), Seq<char>>
    decreases ts.len() - j, 20int,
{
    if j < 0 || j > ts.len() {
        Err(Seq::empty())
    } else {
        match parse_level(ts, j, 0) {
            Err(e) => Err(e),
            Ok((x, k)) => if k <= j || k > ts.len() {
                Err(Seq::empty())
            } else {
                let item: Result<(ElementV, int), Seq<char>> = if at(ts, k, TokenKindV::Arrow) {
                    match parse_level(ts, k + 1, 0) {
                        Err(e) => Err(e),
                        Ok((v, m)) => Ok((ElementV::KeyValue { key: x, value: v }, m)),
                    }
                } else {
                    Ok((ElementV::Value(x), k))
                };
                match item {
                    Err(e) => Err(e),
                    Ok((el, m)) => if m < k || m > ts.len() {
                        Err(Seq::empty())
                    } else if at(ts, m, TokenKindV::Comma) {
                        elements_rest(ts, m + 1, acc.push(el))
                    } else {
                        match expect(ts, m, TokenKindV::RBracket) {
                            Err(e) => Err(e),
                            Ok(n) => Ok((ExprV::Literal(LiteralV::Array(acc.push(el))), n)),
                        }
                    },
                }
            },
        }
    }
}

/// An expression at position `i` and the position after it.
pub open spec fn expression(ts: Seq<TokenV>, i: int) -> Result<(ExprV, int), Seq<char>> {
    parse_level(ts, i, 0)
}

/// A type at `i`: a name, lowered to ASCII lowercase, and optional generic arguments between
/// `<` and `>`.
pub open spec fn type_at(ts: Seq<TokenV>, i: int) -> Result<(TypeV, int), Seq<char>>
    decreases ts.len() - i, 0int,
{
    if i < 0 || i > ts.len() {
        Err(Seq::empty())
    } else {
        match identifier(ts, i) {
            Err(e) => Err(e),
            Ok((n, j)) => if at(ts, j, TokenKindV::Less) {
                types_rest(ts, j + 1, lower(n), Seq::empty())
            } else {
                Ok((TypeV { name: lower(n), generics: Seq::empty() }, j))
            },
        }
    }
}

/// The generic arguments of type `name` from `j` on, after `acc`, up to and past the `>`.
pub open spec fn types_rest(ts: Seq<TokenV>, j: int, name: Seq<char>, acc: Seq<TypeV>) -> Result<(TypeV, int), Seq<char>>
    decreases ts.len() - j, 1int,
{
    if j < 0 || j > ts.len() {
        Err(Seq::empty())
    } else {
        match type_at(ts, j) {
            Err(e) => Err(e),
            Ok((t, k)) => if k <= j || k > ts.len() {
                Err(Seq::empty())
            } else if at(ts, k, TokenKindV::Comma) {
                types_rest(ts, k + 1, name, acc.push(t))
            } else {
                match expect(ts, k, TokenKindV::Greater) {
                    Err(e) => Err(e),
                    Ok(m) => Ok((TypeV { name, generics: acc.push(t) }, m)),
                }
            },
        }
    }
}

/// An expression in parentheses at `i`.
pub open spec fn paren_expr(ts: Seq<TokenV>, i: int) -> Result<(ExprV, int), Seq<char>> {
    match expect(ts, i, TokenKindV::LParen) {
        Err(e) => Err(e),
        Ok(j) => match expression(ts, j) {
            Err(e) => Err(e),
            Ok((x, k)) => match expect(ts, k, TokenKindV::RParen) {
                Err(e) => Err(e),
                Ok(m) => Ok((x, m)),
            },
        },
    }
}

/// An optional initial value `= expr` at `i`.
pub open spec fn optional_value(ts: Seq<TokenV>, i: int) -> Result<(Option<ExprV>, int), Seq<char>> {
    if at(ts, i, TokenKindV::Equals) {
        match expression(ts, i + 1) {
            Err(e) => Err(e),
            Ok((x, j)) => Ok((Some(x), j)),
        }
    } else {
        Ok((None, i))
    }
}

/// A `let` declaration after the keyword, at `i`: `fix` makes it immutable, then the name, an
/// optional `: type` and an optional value.
pub open spec fn let_at(ts: Seq<TokenV>, i: int) -> Result<(StmtV, int), Seq<char>> {
    let fixed = at(ts, i, TokenKindV::Fix);
    let j = if fixed { i + 1 } else { i };
    match identifier(ts, j) {
        Err(e) => Err(e),
        Ok((name, k)) => {
            let ty: Result<(Option<TypeV>, int), Seq<char>> = if at(ts, k, TokenKindV::Colon) {
                match type_at(ts, k + 1) {
                    Err(e) => Err(e),
                    Ok((t, m)) => Ok((Some(t), m)),
                }
            } else {
                Ok((None, k))
            };
            match ty {
                Err(e) => Err(e),
                Ok((ty, m)) => match optional_value(ts, m) {
                    Err(e) => Err(e),
                    Ok((value, n)) => Ok((StmtV::Let { name, ty, mutable: !fixed, value }, n)),
                },
            }
        },
    }
}

/// Whether the statement at `i` is a declaration written type first: an identifier followed by
/// another identifier, by `!` or by `<`.
pub open spec fn typed_declaration_start(ts: Seq<TokenV>, i: int) -> bool {
    &&& kind_at(ts, i) matches Some(TokenKindV::Identifier(_))
    &&& (kind_at(ts, i + 1) matches Some(TokenKindV::Identifier(_)) || at(ts, i + 1, TokenKindV::Bang)
        || at(ts, i + 1, TokenKindV::Less))
}

/// A declaration written type first at `i`: the type, `!` for a mutable variable, the name
/// and an optional value.
pub open spec fn typed_declaration(ts: Seq<TokenV>, i: int) -> Result<(StmtV, int), Seq<char>> {
    match type_at(ts, i) {
        Err(e) => Err(e),
        Ok((t, j)) => {
            let mutable = at(ts, j, TokenKindV::Bang);
            let k = if mutable { j + 1 } else { j };
            match identifier(ts, k) {
                Err(e) => Err(e),
                Ok((name, m)) => match optional_value(ts, m) {
                    Err(e) => Err(e),
                    Ok((value, n)) => Ok((StmtV::Let { name, ty: Some(t), mutable, value }, n)),
                },
            }
        },
    }
}

/// The indices of an assignment target from `j` on, after `acc`: `[]` appends, `[expr]` indexes.
pub open spec fn index_chain(ts: Seq<TokenV>, j: int, acc: Seq<IndexTargetV>) -> Result<(Seq<IndexTargetV>, int), Seq<char>>
    decreases ts.len() - j,
{
    if j < 0 || j > ts.len() {
        Err(Seq::empty())
    } else if at(ts, j, TokenKindV::LBracket) {
        if at(ts, j + 1, TokenKindV::RBracket) {
            index_chain(ts, j + 2, acc.push(IndexTargetV::Append))
        } else {
            match expression(ts, j + 1) {
                Err(e) => Err(e),
                Ok((x, k)) => match expect(ts, k, TokenKindV::RBracket) {
                    Err(e) => Err(e),
                    Ok(m) => if m <= j {
                        Err(Seq::empty())
                    } else {
                        index_chain(ts, m, acc.push(IndexTargetV::Index(x)))
                    },
                },
            }
        }
    } else {
        Ok((acc, j))
    }
}

/// The compound assignment operator that the token kind writes, if any.
pub open spec fn compound_op(k: TokenKindV) -> Option<BinaryOp> {
    match k {
        TokenKindV::PlusEquals => Some(BinaryOp::Add),
        TokenKindV::MinusEquals => Some(BinaryOp::Subtract),
        TokenKindV::StarEquals => Some(BinaryOp::Multiply),
        TokenKindV::SlashEquals => Some(BinaryOp::Divide),
        TokenKindV::PercentEquals => Some(BinaryOp::Modulo),
        _ => None,
    }
}

/// How a variable is assigned, at `k`: `++`, `--`, a compound operator and an expression, or `=`
/// and an expression.
pub open spec fn assignment_kind(ts: Seq<TokenV>, k: int) -> Result<(KindV, int), Seq<char>> {
    if at(ts, k, TokenKindV::PlusPlus) {
        Ok((KindV::Increment(IncrementOp::Increment), k + 1))
    } else if at(ts, k, TokenKindV::MinusMinus) {
        Ok((KindV::Increment(IncrementOp::Decrement), k + 1))
    } else if kind_at(ts, k) matches Some(t) && compound_op(t) is Some {
        match expression(ts, k + 1) {
            Err(e) => Err(e),
            Ok((x, n)) => Ok((KindV::Compound { op: compound_op(ts[k].kind)->0, expr: x }, n)),
        }
    } else {
        match expect(ts, k, TokenKindV::Equals) {
            Err(e) => Err(e),
            Ok(m) => match expression(ts, m) {
                Err(e) => Err(e),
                Ok((x, n)) => Ok((KindV::Simple(x), n)),
            },
        }
    }
}

/// An assignment statement at `i`.
pub open spec fn assignment_at(ts: Seq<TokenV>, i: int) -> Result<(StmtV, int), Seq<char>> {
    match identifier(ts, i) {
        Err(e) => Err(e),
        Ok((name, j)) => match index_chain(ts, j, Seq::empty()) {
            Err(e) => Err(e),
            Ok((idx, k)) => if idx.len() == 0 {
                match assignment_kind(ts, k) {
                    Err(e) => Err(e),
                    Ok((kind, n)) => Ok((StmtV::Assign { target: TargetV::Name(name), kind }, n)),
                }
            } else if at(ts, k, TokenKindV::PlusPlus) || at(ts, k, TokenKindV::MinusMinus)
                || (kind_at(ts, k) matches Some(t) && compound_op(t) is Some) {
                Err("compound and increment assignments are not supported for indexed targets"@)
            } else {
                match expect(ts, k, TokenKindV::Equals) {
                    Err(e) => Err(e),
                    Ok(m) => match expression(ts, m) {
                        Err(e) => Err(e),
                        Ok((x, n)) => Ok((StmtV::Assign {
                            target: TargetV::Indexed { name, indices: idx },
                            kind: KindV::Simple(x),
                        }, n)),
                    },
                }
            },
        },
    }
}

/// A statement at `i` and the position after it.
pub open spec fn stmt_at(ts: Seq<TokenV>, i: int) -> Result<(StmtV, int), Seq<char>>
    decreases ts.len() - i, 0int,
{
    if i < 0 || i > ts.len() {
        Err(Seq::empty())
    } else {
        match kind_at(ts, i) {
            Some(TokenKindV::Echo) => match expression(ts, i + 1) {
                Err(e) => Err(e),
                Ok((x, j)) => Ok((StmtV::Echo(x), j)),
            },
            Some(TokenKindV::Let) => let_at(ts, i + 1),
            Some(TokenKindV::If) => match if_core(ts, i + 1) {
                Err(e) => Err(e),
                Ok((x, j)) => Ok((StmtV::If(x), j)),
            },
            Some(TokenKindV::While) => match paren_expr(ts, i + 1) {
                Err(e) => Err(e),
                Ok((condition, j)) => match expect(ts, j, TokenKindV::LBrace) {
                    Err(e) => Err(e),
                    Ok(k) => if k <= i || k > ts.len() {
                        Err(Seq::empty())
                    } else {
                        match block_rest(ts, k, Seq::empty()) {
                            Err(e) => Err(e),
                            Ok((body, n)) => Ok((StmtV::While { condition, body }, n)),
                        }
                    },
                },
            },
            Some(TokenKindV::Break) => Ok((StmtV::Break, i + 1)),
            Some(TokenKindV::Continue) => Ok((StmtV::Continue, i + 1)),
            Some(TokenKindV::Identifier(_)) => if typed_declaration_start(ts, i) {
                typed_declaration(ts, i)
            } else {
                assignment_at(ts, i)
            },
            _ => Err("unexpected token "@ + peek_text(ts, i) + " at start of statement"@),
        }
    }
}

/// The statements of a block from `j` on, after `acc`, up to and past its `}`.
pub open spec fn block_rest(ts: Seq<TokenV>, j: int, acc: Seq<StmtV>) -> Result<(Seq<StmtV>, int), Seq<char>>
    decreases ts.len() - j, 1int,
{
    if j < 0 || j > ts.len() {
        Err(Seq::empty())
    } else {
        let j1 = skip_separators(ts, j);
        proof {
            lemma_skip_separators(ts, j);
        }
        if at(ts, j1, TokenKindV::RBrace) {
            Ok((acc, j1 + 1))
        } else if j1 >= ts.len() {
            Err("unterminated block"@)
        } else {
            match stmt_at(ts, j1) {
                Err(e) => Err(e),
                Ok((st, k)) => if k <= j1 || k > ts.len() {
                    Err(Seq::empty())
                } else {
                    block_rest(ts, k, acc.push(st))
                },
            }
        }
    }
}

/// An `if` statement after the keyword, at `i`: a condition in parentheses, a block, and an
/// optional `else` with another `if` or a block.
pub open spec fn if_core(ts: Seq<TokenV>, i: int) -> Result<(IfV, int), Seq<char>>
    decreases ts.len() - i, 0int,
{
    if i < 0 || i > ts.len() {
        Err(Seq::empty())
    } else {
        match paren_expr(ts, i) {
            Err(e) => Err(e),
            Ok((condition, j)) => match expect(ts, j, TokenKindV::LBrace) {
                Err(e) => Err(e),
                Ok(k) => if k <= i || k > ts.len() {
                    Err(Seq::empty())
                } else {
                    match block_rest(ts, k, Seq::empty()) {
                        Err(e) => Err(e),
                        Ok((then_branch, m)) => if m <= i || m > ts.len() {
                            Err(Seq::empty())
                        } else if at(ts, m, TokenKindV::Else) {
                            if at(ts, m + 1, TokenKindV::If) {
                                match if_core(ts, m + 2) {
                                    Err(e) => Err(e),
                                    Ok((nested, p)) => Ok((IfV {
                                        condition,
                                        then_branch,
                                        else_branch: Some(Box::new(ElseV::If(nested))),
                                    }, p)),
                                }
                            } else {
                                match expect(ts, m + 1, TokenKindV::LBrace) {
                                    Err(e) => Err(e),
                                    Ok(q) => match block_rest(ts, q, Seq::empty()) {
                                        Err(e) => Err(e),
                                        Ok((block, p)) => Ok((IfV {
                                            condition,
                                            then_branch,
                                            else_branch: Some(Box::new(ElseV::Block(block))),
                                        }, p)),
                                    },
                                }
                            }
                        } else {
                            Ok((IfV { condition, then_branch, else_branch: None }, m))
                        },
                    }
                },
            },
        }
    }
}

/// A source that holds exactly one statement, with separators around it.
pub open spec fn statement_of(ts: Seq<TokenV>) -> Result<StmtV, Seq<char>> {
    match stmt_at(ts, skip_separators(ts, 0)) {
        Err(e) => Err(e),
        Ok((st, k)) => if skip_separators(ts, k) < ts.len() {
            Err("unexpected tokens after end of statement"@)
        } else {
            Ok(st)
        },
    }
}

/// The statements from `j` on, after `acc`, to the end of the tokens.
pub open spec fn program_rest(ts: Seq<TokenV>, j: int, acc: Seq<StmtV>) -> Result<Seq<StmtV>, Seq<char>>
    decreases ts.len() - j,
{
    let i = skip_separators(ts, j);
    if j < 0 || i >= ts.len() {
        Ok(acc)
    } else {
        match stmt_at(ts, i) {
            Err(e) => Err(e),
            Ok((st, k)) => if k <= j || k > ts.len() {
                Err(Seq::empty())
            } else {
                program_rest(ts, k, acc.push(st))
            },
        }
    }
}

/// The one statement that a source holds, or the first lexing or parsing error.
pub open spec fn parse_statement_spec(source: Seq<char>) -> Result<StmtV, Seq<char>> {
    match lex_spec(source) {
        Err(e) => Err(e),
        Ok(ts) => statement_of(ts),
    }
}

/// The statements that a source holds, or the first lexing or parsing error.
pub open spec fn parse_program_spec(source: Seq<char>) -> Result<Seq<StmtV>, Seq<char>> {
    match lex_spec(source) {
        Err(e) => Err(e),
        Ok(ts) => program_rest(ts, 0, Seq::empty()),
    }
}

/// Every statement that the parser reads is well formed: its compound assignments use only
/// `+`, `-`, `*`, `/` and `%`.
pub proof fn lemma_stmt_at_wf(ts: Seq<TokenV>, i: int)
    ensures
        stmt_at(ts, i) matches Ok((st, _)) ==> stmt_wf(st),
    decreases ts.len() - i, 0int,
{
    if 0 <= i <= ts.len() {
        match kind_at(ts, i) {
            Some(TokenKindV::If) => {
                lemma_if_core_wf(ts, i + 1);
            },
            Some(TokenKindV::While) => {
                if let Ok((c, j)) = paren_expr(ts, i + 1) {
                    if let Ok(k) = expect(ts, j, TokenKindV::LBrace) {
                        if k > i && k <= ts.len() {
                            lemma_block_rest_wf(ts, k, Seq::empty());
                        }
                    }
                }
            },
            _ => {},
        }
    }
}

/// The statements of a well-formed block prefix and a block that the parser reads are well
/// formed.
pub proof fn lemma_block_rest_wf(ts: Seq<TokenV>, j: int, acc: Seq<StmtV>)
    requires
        stmts_wf(acc, 0),
    ensures
        block_rest(ts, j, acc) matches Ok((ss, _)) ==> stmts_wf(ss, 0),
    decreases ts.len() - j, 1int,
{
    if 0 <= j <= ts.len() {
        let j1 = skip_separators(ts, j);
        lemma_skip_separators(ts, j);
        if !at(ts, j1, TokenKindV::RBrace) && j1 < ts.len() {
            lemma_stmt_at_wf(ts, j1);
            if let Ok((st, k)) = stmt_at(ts, j1) {
                if k > j1 && k <= ts.len() {
                    lemma_stmts_wf(acc, 0);
                    lemma_stmts_wf(acc.push(st), 0);
                    assert forall|n: int| 0 <= n < acc.push(st).len() implies #[trigger] stmt_wf(acc.push(st)[n]) by {
                        if n < acc.len() {
                            assert(acc.push(st)[n] == acc[n]);
                        }
                    }
                    lemma_block_rest_wf(ts, k, acc.push(st));
                }
            }
        }
    }
}

/// Every `if` statement that the parser reads is well formed.
pub proof fn lemma_if_core_wf(ts: Seq<TokenV>, i: int)
    ensures
        if_core(ts, i) matches Ok((x, _)) ==> if_wf(x),
    decreases ts.len() - i, 0int,
{
    if 0 <= i <= ts.len() {
        if let Ok((c, j)) = paren_expr(ts, i) {
            if let Ok(k) = expect(ts, j, TokenKindV::LBrace) {
                if k > i && k <= ts.len() {
                    lemma_block_rest_wf(ts, k, Seq::empty());
                    if let Ok((then_branch, m)) = block_rest(ts, k, Seq::empty()) {
                        if m > i && m <= ts.len() && at(ts, m, TokenKindV::Else) {
                            if at(ts, m + 1, TokenKindV::If) {
                                lemma_if_core_wf(ts, m + 2);
                            } else if let Ok(q) = expect(ts, m + 1, TokenKindV::LBrace) {
                                lemma_block_rest_wf(ts, q, Seq::empty());
                            }
                        }
                    }
                }
            }
        }
    }
}

/// The statements that the parser reads from a source are well formed.
pub proof fn lemma_program_rest_wf(ts: Seq<TokenV>, j: int, acc: Seq<StmtV>)
    requires
        stmts_wf(acc, 0),
    ensures
        program_rest(ts, j, acc) matches Ok(ss) ==> stmts_wf(ss, 0),
    decreases ts.len() - j,
{
    let i = skip_separators(ts, j);
    if j >= 0 && i < ts.len() {
        lemma_stmt_at_wf(ts, i);
        if let Ok((st, k)) = stmt_at(ts, i) {
            if k > j && k <= ts.len() {
                lemma_stmts_wf(acc, 0);
                lemma_stmts_wf(acc.push(st), 0);
                assert forall|n: int| 0 <= n < acc.push(st).len() implies #[trigger] stmt_wf(acc.push(st)[n]) by {
                    if n < acc.len() {
                        assert(acc.push(st)[n] == acc[n]);
                    }
                }
                lemma_program_rest_wf(ts, k, acc.push(st));
            }
        }
    }
}

/// A statement that `parse_statement` accepts is well formed.
pub proof fn law_parsed_statement_wf(source: Seq<char>)
    ensures
        parse_statement_spec(source) matches Ok(st) ==> stmt_wf(st),
{
    if let Ok(ts) = lex_spec(source) {
        lemma_stmt_at_wf(ts, skip_separators(ts, 0));
    }
}

/// Every statement that `parse_program` accepts is well formed.
pub proof fn law_parsed_program_wf(source: Seq<char>)
    ensures
        parse_program_spec(source) matches Ok(ss) ==> stmts_wf(ss, 0),
{
    if let Ok(ts) = lex_spec(source) {
        lemma_program_rest_wf(ts, 0, Seq::empty());
    }
}

/// The views of the tokens, position by position.
proof fn lemma_tokens_view(ts: Seq<Token>)
    ensures
        tokens_view(ts).len() == ts.len(),
        forall|i: int| 0 <= i < ts.len() ==> #[trigger] tokens_view(ts)[i] == ts[i]@,
{
}

/// Whether the token at `i` is of the kind `k`, which carries no payload.
fn check(ts: &Vec<Token>, i: usize, k: &TokenKind) -> (r: bool)
    requires
        is_plain(k@),
    ensures
        r == at(tokens_view(ts@), i as int, k@),
        r ==> i < ts.len(),
{
    proof { lemma_tokens_view(ts@); }
    if i < ts.len() {
        let same = ts[i].kind.code() == k.code();
        proof {
            if same {
                crate::token::lemma_plain_code(ts@[i as int].kind@, k@);
            }
        }
        same
    } else {
        false
    }
}

/// How the token at `i` is written in messages.
fn peek_text_of(ts: &Vec<Token>, i: usize) -> (r: String)
    ensures
        r@ == peek_text(tokens_view(ts@), i as int),
{
    proof { lemma_tokens_view(ts@); }
    if i < ts.len() {
        let mut out = owned("Some(");
        let t = ts[i].kind.describe();
        push_str(&mut out, t.as_str());
        push_str(&mut out, ")");
        out
    } else {
        owned("None")
    }
}

/// The position after a token of kind `k` at `i`.
fn expect_token(ts: &Vec<Token>, i: usize, k: TokenKind) -> (r: Result<usize, SyntaxError>)
    requires
        is_plain(k@),
    ensures
        match expect(tokens_view(ts@), i as int, k@) {
            Ok(j) => r matches Ok(n) && n == j,
            Err(m) => r matches Err(e) && e@ == m,
        },
{
    if check(ts, i, &k) {
        Ok(i + 1)
    } else {
        let mut msg = owned("expected token ");
        let t = k.describe();
        push_str(&mut msg, t.as_str());
        push_str(&mut msg, ", found ");
        let found = peek_text_of(ts, i);
        push_str(&mut msg, found.as_str());
        Err(SyntaxError::new(msg))
    }
}

/// The identifier at `i`.
fn consume_identifier(ts: &Vec<Token>, i: usize) -> (r: Result<(String, usize), SyntaxError>)
    ensures
        match identifier(tokens_view(ts@), i as int) {
            Ok((n, j)) => r matches Ok((m, k)) && m@ == n && k == j,
            Err(m) => r matches Err(e) && e@ == m,
        },
{
    proof { lemma_tokens_view(ts@); }
    if i >= ts.len() {
        return Err(SyntaxError::new(owned("unexpected end of input while reading identifier")));
    }
    match &ts[i].kind {
        TokenKind::Identifier(name) => Ok((name.clone(), i + 1)),
        TokenKind::StringLiteral(_) => Err(SyntaxError::new(owned("string literal cannot appear where identifier is expected"))),
        other => {
            let mut msg = owned("expected identifier, found ");
            let t = other.describe();
            push_str(&mut msg, t.as_str());
            Err(SyntaxError::new(msg))
        },
    }
}

/// The binary operator of level `level` at `i`, if any.
fn operator_at(ts: &Vec<Token>, i: usize, level: u8) -> (r: Option<BinaryOp>)
    ensures
        r == op_at(tokens_view(ts@), i as int, level as int),
        r is Some ==> i < ts.len(),
{
    proof { lemma_tokens_view(ts@); }
    if i >= ts.len() {
        return None;
    }
    match &ts[i].kind {
        TokenKind::DoublePipe => if level == 0 { Some(BinaryOp::Or) } else { None },
        TokenKind::DoubleAmpersand => if level == 1 { Some(BinaryOp::And) } else { None },
        TokenKind::EqualEqual => if level == 2 { Some(BinaryOp::Equal) } else { None },
        TokenKind::BangEqual => if level == 2 { Some(BinaryOp::NotEqual) } else { None },
        TokenKind::Less => if level == 3 { Some(BinaryOp::Less) } else { None },
        TokenKind::LessEqual => if level == 3 { Some(BinaryOp::LessEqual) } else { None },
        TokenKind::Greater => if level == 3 { Some(BinaryOp::Greater) } else { None },
        TokenKind::GreaterEqual => if level == 3 { Some(BinaryOp::GreaterEqual) } else { None },
        TokenKind::Plus => if level == 4 { Some(BinaryOp::Add) } else { None },
        TokenKind::Minus => if level == 4 { Some(BinaryOp::Subtract) } else { None },
        TokenKind::Star => if level >= 5 { Some(BinaryOp::Multiply) } else { None },
        TokenKind::Slash => if level >= 5 { Some(BinaryOp::Divide) } else { None },
        TokenKind::Percent => if level >= 5 { Some(BinaryOp::Modulo) } else { None },
        _ => None,
    }
}

/// The expression of precedence level `level` at `i`.
fn parse_level_of(ts: &Vec<Token>, i: usize, level: u8) -> (r: Result<(Expr, usize), SyntaxError>)
    requires
        i <= ts@.len(),
        level <= 6,
    ensures
        match parse_level(tokens_view(ts@), i as int, level as int) {
            Ok((e, j)) => r matches Ok((x, k)) && x@ == e && k == j,
            Err(m) => r matches Err(err) && err@ == m,
        },
        r matches Ok((_, k)) ==> i < k <= ts@.len(),
    decreases ts@.len() - i, 2 * (7 - level) + 1,
{
    let ghost tsv = tokens_view(ts@);
    proof { lemma_tokens_view(ts@); }
    if level < 6 {
        let (first, j) = match parse_level_of(ts, i, level + 1) {
            Ok(p) => p,
            Err(e) => return Err(e),
        };
        let ghost target = parse_level(tsv, i as int, level as int);
        let mut left = first;
        let mut j = j;
        let mut next = operator_at(ts, j, level);
        while next.is_some()
            invariant
                tsv == tokens_view(ts@),
                level < 6,
                i < j <= ts@.len(),
                target == parse_level(tsv, i as int, level as int),
                next == op_at(tsv, j as int, level as int),
                next is Some ==> j < ts.len(),
                target == binary_rest(tsv, j as int, level as int, left@),
            decreases ts@.len() - j,
        {
            let op = next.unwrap();
            let (right, k) = match parse_level_of(ts, j + 1, level + 1) {
                Ok(p) => p,
                Err(e) => return Err(e),
            };
            left = Expr::Binary { left: Box::new(left), op, right: Box::new(right) };
            j = k;
            next = operator_at(ts, j, level);
        }
        Ok((left, j))
    } else if check(ts, i, &TokenKind::Bang) {
        let (x, j) = match parse_level_of(ts, i + 1, 6) {
            Ok(p) => p,
            Err(e) => return Err(e),
        };
        Ok((Expr::Unary { op: UnaryOp::Not, expr: Box::new(x) }, j))
    } else if check(ts, i, &TokenKind::Minus) {
        let (x, j) = match parse_level_of(ts, i + 1, 6) {
            Ok(p) => p,
            Err(e) => return Err(e),
        };
        Ok((Expr::Unary { op: UnaryOp::Negate, expr: Box::new(x) }, j))
    } else {
        let (first, j) = match parse_primary(ts, i) {
            Ok(p) => p,
            Err(e) => return Err(e),
        };
        let ghost target = parse_level(tsv, i as int, level as int);
        let mut x = first;
        let mut j = j;
        while check(ts, j, &TokenKind::LBracket)
            invariant
                tsv == tokens_view(ts@),
                level == 6,
                i < j <= ts@.len(),
                target == parse_level(tsv, i as int, level as int),
                target == postfix_rest(tsv, j as int, x@),
            decreases ts@.len() - j,
        {
            if check(ts, j + 1, &TokenKind::RBracket) {
                return Err(SyntaxError::new(owned("empty index accessor is only allowed in assignment context")));
            }
            let (index, k) = match parse_level_of(ts, j + 1, 0) {
                Ok(p) => p,
                Err(e) => return Err(e),
            };
            let m = match expect_token(ts, k, TokenKind::RBracket) {
                Ok(m) => m,
                Err(e) => return Err(e),
            };
            x = Expr::Index { target: Box::new(x), index: Box::new(index) };
            j = m;
        }
        Ok((x, j))
    }
}

/// A primary expression at `i`.
fn parse_primary(ts: &Vec<Token>, i: usize) -> (r: Result<(Expr, usize), SyntaxError>)
    requires
        i <= ts@.len(),
    ensures
        match primary(tokens_view(ts@), i as int) {
            Ok((e, j)) => r matches Ok((x, k)) && x@ == e && k == j,
            Err(m) => r matches Err(err) && err@ == m,
        },
        r matches Ok((_, k)) ==> i < k <= ts@.len(),
    decreases ts@.len() - i, 0int,
{
    proof { lemma_tokens_view(ts@); }
    if i >= ts.len() {
        return Err(SyntaxError::new(owned("unexpected end of input")));
    }
    match &ts[i].kind {
        TokenKind::IntegerLiteral(v) => Ok((Expr::Literal(Literal::Integer(*v)), i + 1)),
        TokenKind::FloatLiteral(t) => Ok((Expr::Literal(Literal::Float(t.clone())), i + 1)),
        TokenKind::StringLiteral(t) => Ok((Expr::Literal(Literal::Str(t.clone())), i + 1)),
        TokenKind::BoolLiteral(b) => Ok((Expr::Literal(Literal::Bool(*b)), i + 1)),
        TokenKind::Identifier(n) => Ok((Expr::Variable(n.clone()), i + 1)),
        TokenKind::LParen => {
            let (x, j) = match parse_level_of(ts, i + 1, 0) {
                Ok(p) => p,
                Err(e) => return Err(e),
            };
            let k = match expect_token(ts, j, TokenKind::RParen) {
                Ok(k) => k,
                Err(e) => return Err(e),
            };
            Ok((x, k))
        },
        TokenKind::LBracket => {
            if check(ts, i + 1, &TokenKind::RBracket) {
                let empty: Vec<ArrayElement> = Vec::new();
                proof {
                    assert(crate::ast::elements_view(empty@) =~= Seq::<ElementV>::empty());
                }
                return Ok((Expr::Literal(Literal::Array(empty)), i + 2));
            }
            parse_elements(ts, i + 1)
        },
        other => {
            let mut msg = owned("unexpected token ");
            let t = other.describe();
            push_str(&mut msg, t.as_str());
            push_str(&mut msg, " in expression");
            Err(SyntaxError::new(msg))
        },
    }
}

/// The elements of an array literal from `j` on, up to and past its `]`.
fn parse_elements(ts: &Vec<Token>, j: usize) -> (r: Result<(Expr, usize), SyntaxError>)
    requires
        j <= ts@.len(),
    ensures
        match elements_rest(tokens_view(ts@), j as int, Seq::empty()) {
            Ok((e, n)) => r matches Ok((x, k)) && x@ == e && k == n,
            Err(m) => r matches Err(err) && err@ == m,
        },
        r matches Ok((_, k)) ==> j < k <= ts@.len(),
    decreases ts@.len() - j, 20int,
{
    let ghost tsv = tokens_view(ts@);
    let ghost target = elements_rest(tsv, j as int, Seq::empty());
    let mut elements: Vec<ArrayElement> = Vec::new();
    let mut pos = j;
    proof {
        assert(crate::ast::elements_view(elements@) =~= Seq::<ElementV>::empty());
    }
    loop
        invariant
            tsv == tokens_view(ts@),
            j <= pos <= ts@.len(),
            target == elements_rest(tsv, j as int, Seq::empty()),
            target == elements_rest(tsv, pos as int, crate::ast::elements_view(elements@)),
        decreases ts@.len() - pos,
    {
        let (x, k) = match parse_level_of(ts, pos, 0) {
            Ok(p) => p,
            Err(e) => return Err(e),
        };
        let (el, m) = if check(ts, k, &TokenKind::Arrow) {
            let (v, m) = match parse_level_of(ts, k + 1, 0) {
                Ok(p) => p,
                Err(e) => return Err(e),
            };
            (ArrayElement::KeyValue { key: x, value: v }, m)
        } else {
            (ArrayElement::Value(x), k)
        };
        proof {
            crate::ast::lemma_elements_push(elements@, el);
        }
        elements.push(el);
        if check(ts, m, &TokenKind::Comma) {
            pos = m + 1;
        } else {
            let n = match expect_token(ts, m, TokenKind::RBracket) {
                Ok(n) => n,
                Err(e) => return Err(e),
            };
            return Ok((Expr::Literal(Literal::Array(elements)), n));
        }
    }
}

/// The position of the first token at or after `i` that is not a semicolon.
fn skip_separators_from(ts: &Vec<Token>, i: usize) -> (r: usize)
    requires
        i <= ts@.len(),
    ensures
        r == skip_separators(tokens_view(ts@), i as int),
        i <= r <= ts@.len(),
{
    let mut j = i;
    while check(ts, j, &TokenKind::Semicolon)
        invariant
            i <= j <= ts@.len(),
            skip_separators(tokens_view(ts@), i as int) == skip_separators(tokens_view(ts@), j as int),
        decreases ts@.len() - j,
    {
        j = j + 1;
    }
    j
}

/// A type at `i`.
fn parse_type(ts: &Vec<Token>, i: usize) -> (r: Result<(TypeAnnotation, usize), SyntaxError>)
    requires
        i <= ts@.len(),
    ensures
        match type_at(tokens_view(ts@), i as int) {
            Ok((t, j)) => r matches Ok((x, k)) && x@ == t && k == j,
            Err(m) => r matches Err(err) && err@ == m,
        },
        r matches Ok((_, k)) ==> i < k <= ts@.len(),
    decreases ts@.len() - i,
{
    let ghost tsv = tokens_view(ts@);
    proof { lemma_tokens_view(ts@); }
    let (name, j) = match consume_identifier(ts, i) {
        Ok(p) => p,
        Err(e) => return Err(e),
    };
    let lowered = ascii_lowercase(name.as_str());
    if !check(ts, j, &TokenKind::Less) {
        let t = TypeAnnotation::new(lowered);
        proof {
            assert(crate::ast::types_view(t.generics@) =~= Seq::<TypeV>::empty());
        }
        return Ok((t, j));
    }
    let ghost target = type_at(tsv, i as int);
    let mut generics: Vec<TypeAnnotation> = Vec::new();
    let mut pos = j + 1;
    proof {
        assert(crate::ast::types_view(generics@) =~= Seq::<TypeV>::empty());
    }
    loop
        invariant
            tsv == tokens_view(ts@),
            i < pos <= ts@.len(),
            lowered@ == lower(name@),
            target == type_at(tsv, i as int),
            target == types_rest(tsv, pos as int, lowered@, crate::ast::types_view(generics@)),
        decreases ts@.len() - pos,
    {
        let (t, k) = match parse_type(ts, pos) {
            Ok(p) => p,
            Err(e) => return Err(e),
        };
        proof {
            crate::ast::lemma_types_push(generics@, t);
        }
        generics.push(t);
        if check(ts, k, &TokenKind::Comma) {
            pos = k + 1;
        } else {
            let m = match expect_token(ts, k, TokenKind::Greater) {
                Ok(m) => m,
                Err(e) => return Err(e),
            };
            return Ok((TypeAnnotation::with_generics(lowered, generics), m));
        }
    }
}

/// An expression in parentheses at `i`.
fn parse_paren_expr(ts: &Vec<Token>, i: usize) -> (r: Result<(Expr, usize), SyntaxError>)
    requires
        i <= ts@.len(),
    ensures
        match paren_expr(tokens_view(ts@), i as int) {
            Ok((e, j)) => r matches Ok((x, k)) && x@ == e && k == j,
            Err(m) => r matches Err(err) && err@ == m,
        },
        r matches Ok((_, k)) ==> i < k <= ts@.len(),
{
    let j = match expect_token(ts, i, TokenKind::LParen) {
        Ok(j) => j,
        Err(e) => return Err(e),
    };
    let (x, k) = match parse_level_of(ts, j, 0) {
        Ok(p) => p,
        Err(e) => return Err(e),
    };
    let m = match expect_token(ts, k, TokenKind::RParen) {
        Ok(m) => m,
        Err(e) => return Err(e),
    };
    Ok((x, m))
}

/// An optional initial value at `i`.
fn parse_optional_value(ts: &Vec<Token>, i: usize) -> (r: Result<(Option<Expr>, usize), SyntaxError>)
    requires
        i <= ts@.len(),
    ensures
        match optional_value(tokens_view(ts@), i as int) {
            Ok((e, j)) => r matches Ok((x, k)) && k == j && match e {
                Some(v) => x matches Some(y) && y@ == v,
                None => x is None,
            },
            Err(m) => r matches Err(err) && err@ == m,
        },
        r matches Ok((_, k)) ==> i <= k <= ts@.len(),
{
    if check(ts, i, &TokenKind::Equals) {
        let (x, j) = match parse_level_of(ts, i + 1, 0) {
            Ok(p) => p,
            Err(e) => return Err(e),
        };
        Ok((Some(x), j))
    } else {
        Ok((None, i))
    }
}

/// A `let` declaration after the keyword.
fn parse_let(ts: &Vec<Token>, i: usize) -> (r: Result<(Statement, usize), SyntaxError>)
    requires
        i <= ts@.len(),
    ensures
        match let_at(tokens_view(ts@), i as int) {
            Ok((st, j)) => r matches Ok((x, k)) && x@ == st && k == j,
            Err(m) => r matches Err(err) && err@ == m,
        },
        r matches Ok((_, k)) ==> i < k <= ts@.len(),
{
    proof { lemma_tokens_view(ts@); }
    let fixed = check(ts, i, &TokenKind::Fix);
    let j = if fixed { i + 1 } else { i };
    let (name, k) = match consume_identifier(ts, j) {
        Ok(p) => p,
        Err(e) => return Err(e),
    };
    let (ty, m) = if check(ts, k, &TokenKind::Colon) {
        let (t, m) = match parse_type(ts, k + 1) {
            Ok(p) => p,
            Err(e) => return Err(e),
        };
        (Some(t), m)
    } else {
        (None, k)
    };
    let (value, n) = match parse_optional_value(ts, m) {
        Ok(p) => p,
        Err(e) => return Err(e),
    };
    Ok((Statement::Let(VarDeclaration::new(name, ty, !fixed, value)), n))
}

/// A declaration written type first at `i`.
fn parse_typed_declaration(ts: &Vec<Token>, i: usize) -> (r: Result<(Statement, usize), SyntaxError>)
    requires
        i <= ts@.len(),
    ensures
        match typed_declaration(tokens_view(ts@), i as int) {
            Ok((st, j)) => r matches Ok((x, k)) && x@ == st && k == j,
            Err(m) => r matches Err(err) && err@ == m,
        },
        r matches Ok((_, k)) ==> i < k <= ts@.len(),
{
    let (t, j) = match parse_type(ts, i) {
        Ok(p) => p,
        Err(e) => return Err(e),
    };
    let mutable = check(ts, j, &TokenKind::Bang);
    let k = if mutable { j + 1 } else { j };
    let (name, m) = match consume_identifier(ts, k) {
        Ok(p) => p,
        Err(e) => return Err(e),
    };
    let (value, n) = match parse_optional_value(ts, m) {
        Ok(p) => p,
        Err(e) => return Err(e),
    };
    Ok((Statement::Let(VarDeclaration::new(name, Some(t), mutable, value)), n))
}

/// The indices of an assignment target from `j` on.
fn parse_index_chain(ts: &Vec<Token>, j: usize) -> (r: Result<(Vec<IndexTarget>, usize), SyntaxError>)
    requires
        j <= ts@.len(),
    ensures
        match index_chain(tokens_view(ts@), j as int, Seq::empty()) {
            Ok((idx, n)) => r matches Ok((v, k)) && index_targets_view(v@) == idx && k == n,
            Err(m) => r matches Err(err) && err@ == m,
        },
        r matches Ok((_, k)) ==> j <= k <= ts@.len(),
{
    let ghost tsv = tokens_view(ts@);
    let ghost target = index_chain(tsv, j as int, Seq::empty());
    let mut indices: Vec<IndexTarget> = Vec::new();
    let mut pos = j;
    proof {
        assert(index_targets_view(indices@) =~= Seq::<IndexTargetV>::empty());
    }
    while check(ts, pos, &TokenKind::LBracket)
        invariant
            tsv == tokens_view(ts@),
            j <= pos <= ts@.len(),
            target == index_chain(tsv, j as int, Seq::empty()),
            target == index_chain(tsv, pos as int, index_targets_view(indices@)),
        decreases ts@.len() - pos,
    {
        if check(ts, pos + 1, &TokenKind::RBracket) {
            let ghost before = indices@;
            indices.push(IndexTarget::Append);
            proof {
                assert(index_targets_view(indices@) =~= index_targets_view(before).push(IndexTargetV::Append));
            }
            pos = pos + 2;
        } else {
            let (x, k) = match parse_level_of(ts, pos + 1, 0) {
                Ok(p) => p,
                Err(e) => return Err(e),
            };
            let m = match expect_token(ts, k, TokenKind::RBracket) {
                Ok(m) => m,
                Err(e) => return Err(e),
            };
            let ghost before = indices@;
            let ghost xv = x@;
            indices.push(IndexTarget::Index(x));
            proof {
                assert(index_targets_view(indices@) =~= index_targets_view(before).push(IndexTargetV::Index(xv)));
            }
            pos = m;
        }
    }
    Ok((indices, pos))
}

/// The compound assignment operator at `k`, if any.
fn compound_op_at(ts: &Vec<Token>, k: usize) -> (r: Option<BinaryOp>)
    ensures
        r == (match kind_at(tokens_view(ts@), k as int) {
            Some(t) => compound_op(t),
            None => None,
        }),
        r is Some ==> k < ts.len(),
{
    proof { lemma_tokens_view(ts@); }
    if k >= ts.len() {
        return None;
    }
    match &ts[k].kind {
        TokenKind::PlusEquals => Some(BinaryOp::Add),
        TokenKind::MinusEquals => Some(BinaryOp::Subtract),
        TokenKind::StarEquals => Some(BinaryOp::Multiply),
        TokenKind::SlashEquals => Some(BinaryOp::Divide),
        TokenKind::PercentEquals => Some(BinaryOp::Modulo),
        _ => None,
    }
}

/// How a variable is assigned, at `k`.
fn parse_assignment_kind(ts: &Vec<Token>, k: usize) -> (r: Result<(AssignmentKind, usize), SyntaxError>)
    requires
        k <= ts@.len(),
    ensures
        match assignment_kind(tokens_view(ts@), k as int) {
            Ok((kind, n)) => r matches Ok((x, m)) && x@ == kind && m == n,
            Err(e) => r matches Err(err) && err@ == e,
        },
        r matches Ok((_, m)) ==> k < m <= ts@.len(),
{
    proof { lemma_tokens_view(ts@); }
    if check(ts, k, &TokenKind::PlusPlus) {
        return Ok((AssignmentKind::Increment(IncrementOp::Increment), k + 1));
    }
    if check(ts, k, &TokenKind::MinusMinus) {
        return Ok((AssignmentKind::Increment(IncrementOp::Decrement), k + 1));
    }
    match compound_op_at(ts, k) {
        Some(op) => {
            let (x, n) = match parse_level_of(ts, k + 1, 0) {
                Ok(p) => p,
                Err(e) => return Err(e),
            };
            Ok((AssignmentKind::Compound { op, expr: x }, n))
        },
        None => {
            let m = match expect_token(ts, k, TokenKind::Equals) {
                Ok(m) => m,
                Err(e) => return Err(e),
            };
            let (x, n) = match parse_level_of(ts, m, 0) {
                Ok(p) => p,
                Err(e) => return Err(e),
            };
            Ok((AssignmentKind::Simple(x), n))
        },
    }
}

/// An assignment statement at `i`.
fn parse_assignment(ts: &Vec<Token>, i: usize) -> (r: Result<(Statement, usize), SyntaxError>)
    requires
        i <= ts@.len(),
    ensures
        match assignment_at(tokens_view(ts@), i as int) {
            Ok((st, j)) => r matches Ok((x, k)) && x@ == st && k == j,
            Err(m) => r matches Err(err) && err@ == m,
        },
        r matches Ok((_, k)) ==> i < k <= ts@.len(),
{
    let (name, j) = match consume_identifier(ts, i) {
        Ok(p) => p,
        Err(e) => return Err(e),
    };
    let (indices, k) = match parse_index_chain(ts, j) {
        Ok(p) => p,
        Err(e) => return Err(e),
    };
    if indices.len() == 0 {
        let (kind, n) = match parse_assignment_kind(ts, k) {
            Ok(p) => p,
            Err(e) => return Err(e),
        };
        return Ok((Statement::Assignment(Assignment::new(AssignmentTarget::Name(name), kind)), n));
    }
    if check(ts, k, &TokenKind::PlusPlus) || check(ts, k, &TokenKind::MinusMinus) || compound_op_at(ts, k).is_some() {
        return Err(SyntaxError::new(owned("compound and increment assignments are not supported for indexed targets")));
    }
    let m = match expect_token(ts, k, TokenKind::Equals) {
        Ok(m) => m,
        Err(e) => return Err(e),
    };
    let (x, n) = match parse_level_of(ts, m, 0) {
        Ok(p) => p,
        Err(e) => return Err(e),
    };
    Ok((Statement::Assignment(Assignment::new(AssignmentTarget::Indexed { name, indices }, AssignmentKind::Simple(x))), n))
}

/// A statement at `i`.
fn parse_stmt(ts: &Vec<Token>, i: usize) -> (r: Result<(Statement, usize), SyntaxError>)
    requires
        i <= ts@.len(),
    ensures
        match stmt_at(tokens_view(ts@), i as int) {
            Ok((st, j)) => r matches Ok((x, k)) && x@ == st && k == j,
            Err(m) => r matches Err(err) && err@ == m,
        },
        r matches Ok((_, k)) ==> i < k <= ts@.len(),
    decreases ts@.len() - i, 0int,
{
    let ghost tsv = tokens_view(ts@);
    proof { lemma_tokens_view(ts@); }
    if i >= ts.len() {
        let mut msg = owned("unexpected token ");
        let found = peek_text_of(ts, i);
        push_str(&mut msg, found.as_str());
        push_str(&mut msg, " at start of statement");
        return Err(SyntaxError::new(msg));
    }
    match &ts[i].kind {
        TokenKind::Echo => {
            let (x, j) = match parse_level_of(ts, i + 1, 0) {
                Ok(p) => p,
                Err(e) => return Err(e),
            };
            Ok((Statement::Echo(x), j))
        },
        TokenKind::Let => parse_let(ts, i + 1),
        TokenKind::If => {
            let (x, j) = match parse_if_core(ts, i + 1) {
                Ok(p) => p,
                Err(e) => return Err(e),
            };
            Ok((Statement::If(x), j))
        },
        TokenKind::While => {
            let (condition, j) = match parse_paren_expr(ts, i + 1) {
                Ok(p) => p,
                Err(e) => return Err(e),
            };
            let k = match expect_token(ts, j, TokenKind::LBrace) {
                Ok(k) => k,
                Err(e) => return Err(e),
            };
            let (body, n) = match parse_block(ts, k) {
                Ok(p) => p,
                Err(e) => return Err(e),
            };
            Ok((Statement::While(WhileStatement::new(condition, body)), n))
        },
        TokenKind::Break => Ok((Statement::Break, i + 1)),
        TokenKind::Continue => Ok((Statement::Continue, i + 1)),
        TokenKind::Identifier(_) => {
            let typed = i + 1 < ts.len() && (match &ts[i + 1].kind {
                TokenKind::Identifier(_) => true,
                TokenKind::Bang => true,
                TokenKind::Less => true,
                _ => false,
            });
            if typed {
                parse_typed_declaration(ts, i)
            } else {
                parse_assignment(ts, i)
            }
        },
        _ => {
            let mut msg = owned("unexpected token ");
            let found = peek_text_of(ts, i);
            push_str(&mut msg, found.as_str());
            push_str(&mut msg, " at start of statement");
            Err(SyntaxError::new(msg))
        },
    }
}

/// The statements of a block from `j` on, up to and past its `}`.
fn parse_block(ts: &Vec<Token>, j: usize) -> (r: Result<(Vec<Statement>, usize), SyntaxError>)
    requires
        j <= ts@.len(),
    ensures
        match block_rest(tokens_view(ts@), j as int, Seq::empty()) {
            Ok((ss, n)) => r matches Ok((v, k)) && crate::ast::statements_view(v@) == ss && k == n,
            Err(m) => r matches Err(err) && err@ == m,
        },
        r matches Ok((_, k)) ==> j < k <= ts@.len(),
    decreases ts@.len() - j, 1int,
{
    let ghost tsv = tokens_view(ts@);
    let ghost target = block_rest(tsv, j as int, Seq::empty());
    let mut statements: Vec<Statement> = Vec::new();
    let mut pos = j;
    proof {
        assert(crate::ast::statements_view(statements@) =~= Seq::<StmtV>::empty());
    }
    loop
        invariant
            tsv == tokens_view(ts@),
            j <= pos <= ts@.len(),
            target == block_rest(tsv, j as int, Seq::empty()),
            target == block_rest(tsv, pos as int, crate::ast::statements_view(statements@)),
        decreases ts@.len() - pos,
    {
        let p = skip_separators_from(ts, pos);
        if check(ts, p, &TokenKind::RBrace) {
            return Ok((statements, p + 1));
        }
        if p >= ts.len() {
            return Err(SyntaxError::new(owned("unterminated block")));
        }
        let (st, k) = match parse_stmt(ts, p) {
            Ok(q) => q,
            Err(e) => return Err(e),
        };
        proof {
            crate::ast::lemma_statements_push(statements@, st);
        }
        statements.push(st);
        pos = k;
    }
}

/// An `if` statement after the keyword.
fn parse_if_core(ts: &Vec<Token>, i: usize) -> (r: Result<(IfStatement, usize), SyntaxError>)
    requires
        i <= ts@.len(),
    ensures
        match if_core(tokens_view(ts@), i as int) {
            Ok((x, j)) => r matches Ok((y, k)) && crate::ast::if_view(y) == x && k == j,
            Err(m) => r matches Err(err) && err@ == m,
        },
        r matches Ok((_, k)) ==> i < k <= ts@.len(),
    decreases ts@.len() - i, 0int,
{
    let (condition, j) = match parse_paren_expr(ts, i) {
        Ok(p) => p,
        Err(e) => return Err(e),
    };
    let k = match expect_token(ts, j, TokenKind::LBrace) {
        Ok(k) => k,
        Err(e) => return Err(e),
    };
    let (then_branch, m) = match parse_block(ts, k) {
        Ok(p) => p,
        Err(e) => return Err(e),
    };
    if check(ts, m, &TokenKind::Else) {
        if check(ts, m + 1, &TokenKind::If) {
            let (nested, p) = match parse_if_core(ts, m + 2) {
                Ok(q) => q,
                Err(e) => return Err(e),
            };
            Ok((IfStatement::new(condition, then_branch, Some(Box::new(ElseBranch::If(nested)))), p))
        } else {
            let q = match expect_token(ts, m + 1, TokenKind::LBrace) {
                Ok(q) => q,
                Err(e) => return Err(e),
            };
            let (block, p) = match parse_block(ts, q) {
                Ok(x) => x,
                Err(e) => return Err(e),
            };
            Ok((IfStatement::new(condition, then_branch, Some(Box::new(ElseBranch::Block(block)))), p))
        }
    } else {
        Ok((IfStatement::new(condition, then_branch, None), m))
    }
}

/// Parses a source that holds exactly one statement.
pub fn parse_statement(source: &str) -> (r: Result<Statement, SyntaxError>)
    ensures
        match parse_statement_spec(source@) {
            Ok(st) => r matches Ok(x) && x@ == st,
            Err(m) => r matches Err(err) && err@ == m,
        },
{
    let tokens = match lex(source) {
        Ok(t) => t,
        Err(e) => return Err(e),
    };
    let i = skip_separators_from(&tokens, 0);
    let (statement, k) = match parse_stmt(&tokens, i) {
        Ok(p) => p,
        Err(e) => return Err(e),
    };
    let end = skip_separators_from(&tokens, k);
    if end < tokens.len() {
        return Err(SyntaxError::new(owned("unexpected tokens after end of statement")));
    }
    Ok(statement)
}

/// Parses every statement of a source.
pub fn parse_program(source: &str) -> (r: Result<Vec<Statement>, SyntaxError>)
    ensures
        match parse_program_spec(source@) {
            Ok(ss) => r matches Ok(v) && crate::ast::statements_view(v@) == ss,
            Err(m) => r matches Err(err) && err@ == m,
        },
{
    let tokens = match lex(source) {
        Ok(t) => t,
        Err(e) => return Err(e),
    };
    let ghost tsv = tokens_view(tokens@);
    let ghost target = program_rest(tsv, 0, Seq::empty());
    let mut statements: Vec<Statement> = Vec::new();
    let mut pos: usize = 0;
    proof {
        assert(crate::ast::statements_view(statements@) =~= Seq::<StmtV>::empty());
    }
    loop
        invariant
            tsv == tokens_view(tokens@),
            pos <= tokens@.len(),
            lex_spec(source@) == Ok::<Seq<TokenV>, Seq<char>>(tsv),
            target == program_rest(tsv, 0, Seq::empty()),
            target == program_rest(tsv, pos as int, crate::ast::statements_view(statements@)),
        decreases tokens@.len() - pos,
    {
        let i = skip_separators_from(&tokens, pos);
        if i >= tokens.len() {
            return Ok(statements);
        }
        let (st, k) = match parse_stmt(&tokens, i) {
            Ok(p) => p,
            Err(e) => return Err(e),
        };
        proof {
            crate::ast::lemma_statements_push(statements@, st);
        }
        statements.push(st);
        pos = k;
    }
}

} // verus!
