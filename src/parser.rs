use vstd::prelude::*;
use crate::syntax::{expr_model, stmt_model, toks_model};
use crate::syntax::{Expr, ExprM, Statement, StmtM, Syntax, Tok, Token};

pub mod grammar;
mod expr;
mod state;

use grammar::{p_program, tok_at, unexpected};

verus! {

/// What the parser wanted where it stopped.
#[derive(Debug, PartialEq)]
pub enum Expected {
    Token(Token),
    Name,
    Operand,
    Number,
    End,
}

/// Why a token sequence is not a program; `pos` is the index of the
/// offending token (the length of the input at its end).
#[derive(Debug, PartialEq)]
pub enum ParseError {
    Unexpected { expected: Expected, pos: usize },
    /// `-` before the literal `i32::MIN`, whose negation does not fit.
    NegationOverflow { pos: usize },
}

/// `r` and the parser's final position agree with the spec outcome `s`.
pub open spec fn agrees_expr(r: Result<Expr, ParseError>, p: usize, s: Result<(ExprM, int), ParseError>) -> bool {
    match s {
        Ok((m, j)) => r is Ok && expr_model(r->Ok_0) == m && p == j,
        Err(e) => r == Err::<Expr, ParseError>(e),
    }
}

pub open spec fn agrees_stmt(
    r: Result<Statement, ParseError>,
    p: usize,
    s: Result<(StmtM, int), ParseError>,
) -> bool {
    match s {
        Ok((m, j)) => r is Ok && stmt_model(r->Ok_0) == m && p == j,
        Err(e) => r == Err::<Statement, ParseError>(e),
    }
}

/// A cursor over a token sequence.
pub(crate) struct Parser {
    pub(crate) input: Vec<Token>,
    pub(crate) pos: usize,
}

impl Parser {
    pub(crate) open spec fn toks(&self) -> Seq<Tok> {
        toks_model(self.input@)
    }

    pub(crate) open spec fn wf(&self) -> bool {
        self.pos <= self.input@.len()
    }

    fn new(tokens: Vec<Token>) -> (r: Self)
        ensures
            r.input == tokens,
            r.pos == 0,
            r.wf(),
    {
        Parser { input: tokens, pos: 0 }
    }

    /// The token under the cursor.
    fn current(&self) -> (r: Option<&Token>)
        ensures
            self.pos < self.input@.len() ==> r == Some(&self.input@[self.pos as int]),
            self.pos >= self.input@.len() ==> r is None,
    {
        if self.pos < self.input.len() {
            Some(&self.input[self.pos])
        } else {
            None
        }
    }

    /// The token after the one under the cursor.
    fn next(&self) -> (r: Option<&Token>)
        requires
            self.wf(),
        ensures
            self.pos + 1 < self.input@.len() ==> r == Some(&self.input@[self.pos + 1]),
            self.pos + 1 >= self.input@.len() ==> r is None,
    {
        if self.pos < self.input.len() && self.pos + 1 < self.input.len() {
            Some(&self.input[self.pos + 1])
        } else {
            None
        }
    }

    /// Moves past the token under the cursor.
    fn fix(&mut self)
        requires
            old(self).pos < old(self).input.len(),
        ensures
            final(self).input == old(self).input,
            final(self).pos == old(self).pos + 1,
    {
        self.pos = self.pos + 1;
    }

    /// Moves past the token under the cursor if it is `expect`.
    fn confirm(&mut self, expect: Token) -> (r: Result<(), ParseError>)
        requires
            old(self).wf(),
        ensures
            final(self).input == old(self).input,
            final(self).wf(),
            tok_at(old(self).toks(), old(self).pos as int) == Some(expect@) ==> r is Ok
                && final(self).pos == old(self).pos + 1,
            tok_at(old(self).toks(), old(self).pos as int) != Some(expect@) ==> r == Err::<(), ParseError>(
                unexpected(Expected::Token(expect), old(self).pos as int),
            ),
    {
        let ok = match self.current() {
            Some(t) => *t == expect,
            None => false,
        };
        if ok {
            self.fix();
            Ok(())
        } else {
            Err(ParseError::Unexpected { expected: Expected::Token(expect), pos: self.pos })
        }
    }
}

/// Parses a whole token sequence as one program; tokens left over after
/// the program's statement are an error.
pub fn parser(toks: Vec<Token>) -> (r: Result<Syntax, ParseError>)
    ensures
        match p_program(toks_model(toks@)) {
            Ok(m) => r matches Ok(Syntax::Statement(s)) && stmt_model(s) == m,
            Err(e) => r == Err::<Syntax, ParseError>(e),
        },
{
    let mut p = Parser::new(toks);
    let s = p.state()?;
    if p.pos < p.input.len() {
        return Err(ParseError::Unexpected { expected: Expected::End, pos: p.pos });
    }
    Ok(Syntax::Statement(s))
}

} // verus!
