use vstd::prelude::*;
use crate::parser::{Expected, ParseError};
use crate::syntax::{BinOp, ExprM, StmtM, Tok, Token};

verus! {

// The grammar, as functions from a token sequence and a position to the
// tree found there and the position after it:
//
//   Program   = Statement
//   Statement = Single [ ';' Statement ]
//   Single    = 'fn' IDENT '(' { IDENT } ')' '{' Statement '}'
//             | 'return' Expr
//             | 'if' Expr '{' Statement '}' 'else' '{' Statement '}'
//             | IDENT '=' Expr
//             | Expr
//   Expr      = Mul { ('+' | '-') Mul }
//   Mul       = Primary { ('*' | '/') Primary }
//   Primary   = '(' Expr ')' | '{' Expr '}' | NUMBER | '-' NUMBER
//             | IDENT | IDENT '(' { Expr [ ',' Expr ] } ')'
//
// A parse that succeeds always moves forward; the checks `i < j <= t.len()`
// below state that where the recursion needs it.

pub type PRes<T> = Result<(T, int), ParseError>;

pub open spec fn tok_at(t: Seq<Tok>, i: int) -> Option<Tok> {
    if 0 <= i < t.len() {
        Some(t[i])
    } else {
        None
    }
}

pub open spec fn unexpected(expected: Expected, i: int) -> ParseError {
    ParseError::Unexpected { expected, pos: i as usize }
}

/// The error for a sub-parse that did not move forward.
pub open spec fn stalled(j: int) -> ParseError {
    unexpected(Expected::Operand, j)
}

pub open spec fn p_primary(t: Seq<Tok>, i: int) -> PRes<ExprM>
    decreases t.len() - i, 1int,
{
    if i < 0 || i >= t.len() {
        Err(unexpected(Expected::Operand, i))
    } else {
        match t[i] {
            Tok::LPar => p_group(t, i, Token::RPAR),
            Tok::LBrace => p_group(t, i, Token::RBRACE),
            Tok::Number(n) => Ok((ExprM::Number(n), i + 1)),
            Tok::Ident(s) => if tok_at(t, i + 1) == Some(Tok::LPar) {
                match p_args(t, i + 2, Seq::empty()) {
                    Ok((args, j)) => Ok((ExprM::Call { id: s, args }, j)),
                    Err(e) => Err(e),
                }
            } else {
                Ok((ExprM::Var(s), i + 1))
            },
            Tok::Minus => match tok_at(t, i + 1) {
                Some(Tok::Number(n)) => if n == i32::MIN {
                    Err(ParseError::NegationOverflow { pos: (i + 1) as usize })
                } else {
                    Ok((ExprM::Number(-n as i32), i + 2))
                },
                _ => Err(unexpected(Expected::Number, i + 1)),
            },
            _ => Err(unexpected(Expected::Operand, i)),
        }
    }
}

/// A bracketed expression opening at `i` and closed by `close`.
pub open spec fn p_group(t: Seq<Tok>, i: int, close: Token) -> PRes<ExprM>
    decreases t.len() - i, 0int,
    when 0 <= i < t.len()
{
    match p_expr(t, i + 1) {
        Ok((e, j)) => if tok_at(t, j) == Some(close@) {
            Ok((e, j + 1))
        } else {
            Err(unexpected(Expected::Token(close), j))
        },
        Err(e) => Err(e),
    }
}

/// Call arguments from `i` up to and including the closing `)`.
pub open spec fn p_args(t: Seq<Tok>, i: int, acc: Seq<ExprM>) -> PRes<Seq<ExprM>>
    decreases t.len() - i, 5int,
{
    if tok_at(t, i) == Some(Tok::RPar) {
        Ok((acc, i + 1))
    } else {
        match p_expr(t, i) {
            Ok((e, j)) => if i < j <= t.len() {
                let k = if tok_at(t, j) == Some(Tok::Comma) {
                    j + 1
                } else {
                    j
                };
                p_args(t, k, acc.push(e))
            } else {
                Err(stalled(j))
            },
            Err(e) => Err(e),
        }
    }
}

pub open spec fn mul_op(t: Tok) -> Option<BinOp> {
    match t {
        Tok::Star => Some(BinOp::Mul),
        Tok::Slash => Some(BinOp::Div),
        _ => None,
    }
}

pub open spec fn add_op(t: Tok) -> Option<BinOp> {
    match t {
        Tok::Plus => Some(BinOp::Add),
        Tok::Minus => Some(BinOp::Sub),
        _ => None,
    }
}

pub open spec fn bin(op: BinOp, l: ExprM, r: ExprM) -> ExprM {
    ExprM::Binary { op, lhs: Box::new(l), rhs: Box::new(r) }
}

/// The rest of a multiplicative chain whose left part is `lhs`.
pub open spec fn p_mul_rest(t: Seq<Tok>, i: int, lhs: ExprM) -> PRes<ExprM>
    decreases t.len() - i, 1int,
{
    if 0 <= i < t.len() && mul_op(t[i]) is Some {
        match p_primary(t, i + 1) {
            Ok((r, j)) => if i < j <= t.len() {
                p_mul_rest(t, j, bin(mul_op(t[i])->0, lhs, r))
            } else {
                Err(stalled(j))
            },
            Err(e) => Err(e),
        }
    } else {
        Ok((lhs, i))
    }
}

pub open spec fn p_mul(t: Seq<Tok>, i: int) -> PRes<ExprM>
    decreases t.len() - i, 2int,
{
    match p_primary(t, i) {
        Ok((e, j)) => if i < j <= t.len() {
            p_mul_rest(t, j, e)
        } else {
            Err(stalled(j))
        },
        Err(e) => Err(e),
    }
}

/// The rest of an additive chain whose left part is `lhs`.
pub open spec fn p_add_rest(t: Seq<Tok>, i: int, lhs: ExprM) -> PRes<ExprM>
    decreases t.len() - i, 3int,
{
    if 0 <= i < t.len() && add_op(t[i]) is Some {
        match p_mul(t, i + 1) {
            Ok((r, j)) => if i < j <= t.len() {
                p_add_rest(t, j, bin(add_op(t[i])->0, lhs, r))
            } else {
                Err(stalled(j))
            },
            Err(e) => Err(e),
        }
    } else {
        Ok((lhs, i))
    }
}

pub open spec fn p_expr(t: Seq<Tok>, i: int) -> PRes<ExprM>
    decreases t.len() - i, 4int,
{
    match p_mul(t, i) {
        Ok((e, j)) => if i < j <= t.len() {
            p_add_rest(t, j, e)
        } else {
            Err(stalled(j))
        },
        Err(e) => Err(e),
    }
}

/// End of the run of identifiers that starts at `i`.
pub open spec fn ident_run(t: Seq<Tok>, i: int) -> int
    decreases t.len() - i,
{
    if 0 <= i < t.len() && t[i] is Ident {
        ident_run(t, i + 1)
    } else {
        i
    }
}

/// The names of the identifiers `t[i..k]`.
pub open spec fn names(t: Seq<Tok>, i: int, k: int) -> Seq<Seq<char>> {
    Seq::new((k - i) as nat, |m: int| t[i + m]->Ident_0)
}

/// A function declaration opening at `i`.
pub open spec fn p_func(t: Seq<Tok>, i: int) -> PRes<StmtM>
    decreases t.len() - i, 6int,
{
    let k = ident_run(t, i + 3);
    if !(tok_at(t, i + 1) is Some && tok_at(t, i + 1)->0 is Ident) {
        Err(unexpected(Expected::Name, i + 1))
    } else if tok_at(t, i + 2) != Some(Tok::LPar) {
        Err(unexpected(Expected::Token(Token::LPAR), i + 2))
    } else if !(i < k <= t.len()) {
        Err(stalled(k))
    } else if tok_at(t, k) != Some(Tok::RPar) {
        Err(unexpected(Expected::Token(Token::RPAR), k))
    } else if tok_at(t, k + 1) != Some(Tok::LBrace) {
        Err(unexpected(Expected::Token(Token::LBRACE), k + 1))
    } else {
        match p_stmt(t, k + 2) {
            Ok((body, m)) => if tok_at(t, m) == Some(Tok::RBrace) {
                let id = t[i + 1]->Ident_0;
                Ok((StmtM::Define { id, params: names(t, i + 3, k), body: Box::new(body) }, m + 1))
            } else {
                Err(unexpected(Expected::Token(Token::RBRACE), m))
            },
            Err(e) => Err(e),
        }
    }
}

/// The `else` part of a conditional, from the `}` that closes its first
/// branch at `k`.
pub open spec fn p_else(t: Seq<Tok>, k: int, c: ExprM, s1: StmtM) -> PRes<StmtM>
    decreases t.len() - k, 6int,
{
    if tok_at(t, k) != Some(Tok::RBrace) {
        Err(unexpected(Expected::Token(Token::RBRACE), k))
    } else if tok_at(t, k + 1) != Some(Tok::Else) {
        Err(unexpected(Expected::Token(Token::ELSE), k + 1))
    } else if tok_at(t, k + 2) != Some(Tok::LBrace) {
        Err(unexpected(Expected::Token(Token::LBRACE), k + 2))
    } else {
        match p_stmt(t, k + 3) {
            Ok((s2, m)) => if tok_at(t, m) == Some(Tok::RBrace) {
                Ok((StmtM::If(c, Box::new(s1), Box::new(s2)), m + 1))
            } else {
                Err(unexpected(Expected::Token(Token::RBRACE), m))
            },
            Err(e) => Err(e),
        }
    }
}

/// A conditional opening at `i`.
pub open spec fn p_if(t: Seq<Tok>, i: int) -> PRes<StmtM>
    decreases t.len() - i, 6int,
{
    match p_expr(t, i + 1) {
        Ok((c, j)) => if !(i < j <= t.len()) {
            Err(stalled(j))
        } else if tok_at(t, j) != Some(Tok::LBrace) {
            Err(unexpected(Expected::Token(Token::LBRACE), j))
        } else {
            match p_stmt(t, j + 1) {
                Ok((s1, k)) => if !(i < k <= t.len()) {
                    Err(stalled(k))
                } else {
                    p_else(t, k, c, s1)
                },
                Err(e) => Err(e),
            }
        },
        Err(e) => Err(e),
    }
}

pub open spec fn p_single(t: Seq<Tok>, i: int) -> PRes<StmtM>
    decreases t.len() - i, 7int,
{
    match tok_at(t, i) {
        Some(Tok::Fn) => p_func(t, i),
        Some(Tok::Return) => match p_expr(t, i + 1) {
            Ok((e, j)) => Ok((StmtM::Return(e), j)),
            Err(e) => Err(e),
        },
        Some(Tok::If) => p_if(t, i),
        Some(Tok::Ident(name)) => if tok_at(t, i + 1) == Some(Tok::Eq) {
            match p_expr(t, i + 2) {
                Ok((e, j)) => Ok((StmtM::Assign(name, e), j)),
                Err(e) => Err(e),
            }
        } else {
            match p_expr(t, i) {
                Ok((e, j)) => Ok((StmtM::Expr(e), j)),
                Err(e) => Err(e),
            }
        },
        _ => match p_expr(t, i) {
            Ok((e, j)) => Ok((StmtM::Expr(e), j)),
            Err(e) => Err(e),
        },
    }
}

/// A statement, followed by `;` and a further statement if one comes.
pub open spec fn p_stmt(t: Seq<Tok>, i: int) -> PRes<StmtM>
    decreases t.len() - i, 8int,
{
    match p_single(t, i) {
        Ok((s, j)) => if !(i < j <= t.len()) {
            Err(stalled(j))
        } else if tok_at(t, j) == Some(Tok::Semicolon) {
            match p_stmt(t, j + 1) {
                Ok((s2, k)) => Ok((StmtM::Compound(Box::new(s), Box::new(s2)), k)),
                Err(e) => Err(e),
            }
        } else {
            Ok((s, j))
        },
        Err(e) => Err(e),
    }
}

/// The program that `t` spells: one statement that uses every token.
pub open spec fn p_program(t: Seq<Tok>) -> Result<StmtM, ParseError> {
    match p_stmt(t, 0) {
        Ok((s, j)) => if j < t.len() {
            Err(unexpected(Expected::End, j))
        } else {
            Ok(s)
        },
        Err(e) => Err(e),
    }
}

} // verus!
