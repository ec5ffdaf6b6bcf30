use vstd::prelude::*;
use crate::parser::grammar::{p_add_rest, p_args, p_expr, p_group, p_mul, p_mul_rest, p_primary, tok_at};
use crate::parser::{agrees_expr, Expected, ParseError, Parser};
use crate::syntax::{args_model, expr_model, lemma_args_model_push, BinOp, Expr, Tok, Token};

verus! {

impl Parser {
    /// PrimaryExpr = '(' Expr ')' | '{' Expr '}' | NUMBER | '-' NUMBER | IDENT | FunctionCall
    pub(crate) fn primary(&mut self) -> (r: Result<Expr, ParseError>)
        requires
            old(self).wf(),
        ensures
            final(self).input == old(self).input,
            final(self).wf(),
            r is Ok ==> final(self).pos > old(self).pos,
            agrees_expr(r, final(self).pos, p_primary(old(self).toks(), old(self).pos as int)),
        decreases old(self).input@.len() - old(self).pos, 1int,
    {
        match self.current() {
            Some(Token::LPAR) => self.group(Token::RPAR),
            Some(Token::LBRACE) => self.group(Token::RBRACE),
            Some(Token::NUMBER(n)) => {
                let n = *n;
                self.fix();
                Ok(Expr::Number(n))
            },
            Some(Token::IDENT(s)) => {
                let name = s.clone();
                let call = match self.next() {
                    Some(Token::LPAR) => true,
                    _ => false,
                };
                self.fix();
                if call {
                    self.fix();
                    let args = self.args()?;
                    Ok(Expr::FunctionCall { id: name, args })
                } else {
                    Ok(Expr::Var(name))
                }
            },
            Some(Token::MINUS) => self.negative(),
            _ => Err(ParseError::Unexpected { expected: Expected::Operand, pos: self.pos }),
        }
    }

    /// A bracketed expression; the cursor is on the opening bracket.
    fn group(&mut self, close: Token) -> (r: Result<Expr, ParseError>)
        requires
            old(self).wf(),
            old(self).pos < old(self).input.len(),
        ensures
            final(self).input == old(self).input,
            final(self).wf(),
            r is Ok ==> final(self).pos > old(self).pos,
            agrees_expr(r, final(self).pos, p_group(old(self).toks(), old(self).pos as int, close)),
        decreases old(self).input@.len() - old(self).pos, 0int,
    {
        self.fix();
        let e = self.expr()?;
        self.confirm(close)?;
        Ok(e)
    }

    /// '-' NUMBER: a negative literal.
    fn negative(&mut self) -> (r: Result<Expr, ParseError>)
        requires
            old(self).wf(),
            tok_at(old(self).toks(), old(self).pos as int) == Some(Tok::Minus),
        ensures
            final(self).input == old(self).input,
            final(self).wf(),
            r is Ok ==> final(self).pos > old(self).pos,
            agrees_expr(r, final(self).pos, p_primary(old(self).toks(), old(self).pos as int)),
    {
        self.fix();
        match self.current() {
            Some(Token::NUMBER(n)) => {
                let n = *n;
                if n == i32::MIN {
                    return Err(ParseError::NegationOverflow { pos: self.pos });
                }
                self.fix();
                Ok(Expr::Number(-n))
            },
            _ => Err(ParseError::Unexpected { expected: Expected::Number, pos: self.pos }),
        }
    }

    /// Arguments of a call, up to and including the closing ')'; the cursor is
    /// just after the opening '('.
    fn args(&mut self) -> (r: Result<Vec<Expr>, ParseError>)
        requires
            old(self).wf(),
        ensures
            final(self).input == old(self).input,
            final(self).wf(),
            r is Ok ==> final(self).pos > old(self).pos,
            match p_args(old(self).toks(), old(self).pos as int, Seq::empty()) {
                Ok((m, j)) => r is Ok && args_model(r->Ok_0@, r->Ok_0@.len() as int) == m
                    && final(self).pos == j,
                Err(e) => r == Err::<Vec<Expr>, ParseError>(e),
            },
        decreases old(self).input@.len() - old(self).pos, 6int,
    {
        let ghost t = self.toks();
        let ghost start = self.pos as int;
        let mut acc: Vec<Expr> = Vec::new();
        loop
            invariant
                self.input == old(self).input,
                self.wf(),
                t == self.toks(),
                start == old(self).pos,
                start <= self.pos,
                p_args(t, start, Seq::empty()) == p_args(
                    t,
                    self.pos as int,
                    args_model(acc@, acc@.len() as int),
                ),
            decreases self.input@.len() - self.pos,
        {
            if let Some(Token::RPAR) = self.current() {
                self.fix();
                return Ok(acc);
            }
            let e = self.expr()?;
            if let Some(Token::COMMA) = self.current() {
                self.fix();
            }
            proof {
                lemma_args_model_push(acc@, e);
            }
            acc.push(e);
        }
    }

    /// MulExpr = PrimaryExpr { ('*' | '/') PrimaryExpr }
    pub(crate) fn mul(&mut self) -> (r: Result<Expr, ParseError>)
        requires
            old(self).wf(),
        ensures
            final(self).input == old(self).input,
            final(self).wf(),
            r is Ok ==> final(self).pos > old(self).pos,
            agrees_expr(r, final(self).pos, p_mul(old(self).toks(), old(self).pos as int)),
        decreases old(self).input@.len() - old(self).pos, 2int,
    {
        let ghost t = self.toks();
        let ghost start = self.pos as int;
        let mut e = self.primary()?;
        loop
            invariant
                self.input == old(self).input,
                self.wf(),
                t == self.toks(),
                start == old(self).pos,
                start < self.pos,
                p_mul(t, start) == p_mul_rest(t, self.pos as int, expr_model(e)),
            decreases self.input@.len() - self.pos,
        {
            let op = match self.current() {
                Some(Token::STAR) => BinOp::Mul,
                Some(Token::SLASH) => BinOp::Div,
                _ => {
                    return Ok(e);
                },
            };
            self.fix();
            let rhs = self.primary()?;
            e = Expr::Binary { op, lhs: Box::new(e), rhs: Box::new(rhs) };
        }
    }

    /// AddExpr = MulExpr { ('+' | '-') MulExpr }
    pub(crate) fn add(&mut self) -> (r: Result<Expr, ParseError>)
        requires
            old(self).wf(),
        ensures
            final(self).input == old(self).input,
            final(self).wf(),
            r is Ok ==> final(self).pos > old(self).pos,
            agrees_expr(r, final(self).pos, p_expr(old(self).toks(), old(self).pos as int)),
        decreases old(self).input@.len() - old(self).pos, 4int,
    {
        let ghost t = self.toks();
        let ghost start = self.pos as int;
        let mut e = self.mul()?;
        loop
            invariant
                self.input == old(self).input,
                self.wf(),
                t == self.toks(),
                start == old(self).pos,
                start < self.pos,
                p_expr(t, start) == p_add_rest(t, self.pos as int, expr_model(e)),
            decreases self.input@.len() - self.pos,
        {
            let op = match self.current() {
                Some(Token::PLUS) => BinOp::Add,
                Some(Token::MINUS) => BinOp::Sub,
                _ => {
                    return Ok(e);
                },
            };
            self.fix();
            let rhs = self.mul()?;
            e = Expr::Binary { op, lhs: Box::new(e), rhs: Box::new(rhs) };
        }
    }

    /// Expr = AddExpr
    pub(crate) fn expr(&mut self) -> (r: Result<Expr, ParseError>)
        requires
            old(self).wf(),
        ensures
            final(self).input == old(self).input,
            final(self).wf(),
            r is Ok ==> final(self).pos > old(self).pos,
            agrees_expr(r, final(self).pos, p_expr(old(self).toks(), old(self).pos as int)),
        decreases old(self).input@.len() - old(self).pos, 5int,
    {
        self.add()
    }
}

} // verus!
