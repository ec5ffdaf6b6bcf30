use vstd::prelude::*;
use crate::parser::grammar::{ident_run, names, p_func, p_if, p_single, p_stmt, tok_at};
use crate::parser::{agrees_stmt, Expected, ParseError, Parser};
use crate::syntax::{names_model, stmt_model, Statement, StmtM, Tok, Token};

verus! {

impl Parser {
    /// Statement = Single [ ';' Statement ]
    pub(crate) fn state(&mut self) -> (r: Result<Statement, ParseError>)
        requires
            old(self).wf(),
        ensures
            final(self).input == old(self).input,
            final(self).wf(),
            r is Ok ==> final(self).pos > old(self).pos,
            agrees_stmt(r, final(self).pos, p_stmt(old(self).toks(), old(self).pos as int)),
        decreases old(self).input@.len() - old(self).pos, 9int,
    {
        let s = self.single()?;
        match self.current() {
            Some(Token::SEMICOLON) => self.compound_statement(s),
            _ => Ok(s),
        }
    }

    /// The statements after a ';' that follows `st`.
    fn compound_statement(&mut self, st: Statement) -> (r: Result<Statement, ParseError>)
        requires
            old(self).wf(),
            tok_at(old(self).toks(), old(self).pos as int) == Some(Tok::Semicolon),
        ensures
            final(self).input == old(self).input,
            final(self).wf(),
            r is Ok ==> final(self).pos > old(self).pos,
            match p_stmt(old(self).toks(), old(self).pos + 1) {
                Ok((m, k)) => r is Ok && stmt_model(r->Ok_0) == StmtM::Compound(
                    Box::new(stmt_model(st)),
                    Box::new(m),
                ) && final(self).pos == k,
                Err(e) => r == Err::<Statement, ParseError>(e),
            },
        decreases old(self).input@.len() - old(self).pos, 8int,
    {
        self.fix();
        let st2 = self.state()?;
        Ok(Statement::CompoundStatement { st1: Box::new(st), st2: Box::new(st2) })
    }

    /// One statement, chosen by the token under the cursor.
    fn single(&mut self) -> (r: Result<Statement, ParseError>)
        requires
            old(self).wf(),
        ensures
            final(self).input == old(self).input,
            final(self).wf(),
            r is Ok ==> final(self).pos > old(self).pos,
            agrees_stmt(r, final(self).pos, p_single(old(self).toks(), old(self).pos as int)),
        decreases old(self).input@.len() - old(self).pos, 7int,
    {
        match self.current() {
            Some(Token::FN) => self.func_statement(),
            Some(Token::RETURN) => self.return_statement(),
            Some(Token::IF) => self.if_statement(),
            Some(Token::IDENT(s)) => {
                let assign = match self.next() {
                    Some(Token::EQ) => true,
                    _ => false,
                };
                if assign {
                    let id = s.clone();
                    self.ident_statement(id)
                } else {
                    self.expr_statement()
                }
            },
            _ => self.expr_statement(),
        }
    }

    /// FuncDecl = 'fn' IDENT '(' { IDENT } ')' '{' Statement '}'
    fn func_statement(&mut self) -> (r: Result<Statement, ParseError>)
        requires
            old(self).wf(),
            tok_at(old(self).toks(), old(self).pos as int) == Some(Tok::Fn),
        ensures
            final(self).input == old(self).input,
            final(self).wf(),
            r is Ok ==> final(self).pos > old(self).pos,
            agrees_stmt(r, final(self).pos, p_func(old(self).toks(), old(self).pos as int)),
        decreases old(self).input@.len() - old(self).pos, 6int,
    {
        let ghost t = self.toks();
        let ghost i = self.pos as int;
        self.fix();
        let name = match self.current() {
            Some(Token::IDENT(s)) => s.clone(),
            _ => {
                return Err(ParseError::Unexpected { expected: Expected::Name, pos: self.pos });
            },
        };
        self.fix();
        self.confirm(Token::LPAR)?;
        let mut params: Vec<String> = Vec::new();
        loop
            invariant
                self.input == old(self).input,
                self.wf(),
                t == self.toks(),
                i == old(self).pos,
                i + 3 <= self.pos,
                ident_run(t, i + 3) == ident_run(t, self.pos as int),
                names_model(params@) == names(t, i + 3, self.pos as int),
            ensures
                self.input == old(self).input,
                self.wf(),
                i + 3 <= self.pos,
                ident_run(t, i + 3) == self.pos,
                names_model(params@) == names(t, i + 3, self.pos as int),
            decreases self.input@.len() - self.pos,
        {
            let s = match self.current() {
                Some(Token::IDENT(s)) => s.clone(),
                _ => {
                    break ;
                },
            };
            proof {
                assert(t[self.pos as int] == Tok::Ident(s@));
                assert(names(t, i + 3, self.pos as int).len() == self.pos - i - 3);
                assert(names_model(params@).len() == params@.len());
                assert(params@.len() == self.pos - i - 3);
                let a = names_model(params@.push(s));
                let b = names(t, i + 3, self.pos + 1);
                assert forall|m: int| 0 <= m < b.len() implies a[m] == b[m] by {
                    if m < params@.len() {
                        assert(params@.push(s)[m] == params@[m]);
                        assert(a[m] == names_model(params@)[m]);
                        assert(names(t, i + 3, self.pos as int)[m] == t[i + 3 + m]->Ident_0);
                    } else {
                        assert(params@.push(s)[m] == s);
                        assert(a[m] == s@);
                        assert(b[m] == t[i + 3 + m]->Ident_0);
                    }
                }
                assert(a =~= b);
            }
            params.push(s);
            self.fix();
        }
        self.confirm(Token::RPAR)?;
        self.confirm(Token::LBRACE)?;
        let body = self.state()?;
        self.confirm(Token::RBRACE)?;
        Ok(Statement::FunctionDefine { id: name, params, body: Box::new(body) })
    }

    /// ReturnStmt = 'return' Expr
    fn return_statement(&mut self) -> (r: Result<Statement, ParseError>)
        requires
            old(self).wf(),
            tok_at(old(self).toks(), old(self).pos as int) == Some(Tok::Return),
        ensures
            final(self).input == old(self).input,
            final(self).wf(),
            r is Ok ==> final(self).pos > old(self).pos,
            agrees_stmt(r, final(self).pos, p_single(old(self).toks(), old(self).pos as int)),
        decreases old(self).input@.len() - old(self).pos, 6int,
    {
        self.fix();
        let e = self.expr()?;
        Ok(Statement::Return { expr: Box::new(e) })
    }

    /// IfStmt = 'if' Expr '{' Statement '}' 'else' '{' Statement '}'
    fn if_statement(&mut self) -> (r: Result<Statement, ParseError>)
        requires
            old(self).wf(),
            tok_at(old(self).toks(), old(self).pos as int) == Some(Tok::If),
        ensures
            final(self).input == old(self).input,
            final(self).wf(),
            r is Ok ==> final(self).pos > old(self).pos,
            agrees_stmt(r, final(self).pos, p_if(old(self).toks(), old(self).pos as int)),
        decreases old(self).input@.len() - old(self).pos, 6int,
    {
        self.fix();
        let condition = self.expr()?;
        self.confirm(Token::LBRACE)?;
        let then = self.state()?;
        self.confirm(Token::RBRACE)?;
        self.confirm(Token::ELSE)?;
        self.confirm(Token::LBRACE)?;
        let els = self.state()?;
        self.confirm(Token::RBRACE)?;
        Ok(Statement::If { condition: Box::new(condition), then: Box::new(then), els: Box::new(els) })
    }

    /// AssignStmt = IDENT '=' Expr
    fn ident_statement(&mut self, s: String) -> (r: Result<Statement, ParseError>)
        requires
            old(self).wf(),
            tok_at(old(self).toks(), old(self).pos as int) == Some(Tok::Ident(s@)),
            tok_at(old(self).toks(), old(self).pos + 1) == Some(Tok::Eq),
        ensures
            final(self).input == old(self).input,
            final(self).wf(),
            r is Ok ==> final(self).pos > old(self).pos,
            agrees_stmt(r, final(self).pos, p_single(old(self).toks(), old(self).pos as int)),
        decreases old(self).input@.len() - old(self).pos, 6int,
    {
        self.fix();
        self.fix();
        let e = self.expr()?;
        Ok(Statement::Assign { id: s, e: Box::new(e) })
    }

    /// ExprStmt = Expr
    fn expr_statement(&mut self) -> (r: Result<Statement, ParseError>)
        requires
            old(self).wf(),
            !(tok_at(old(self).toks(), old(self).pos as int) matches Some(Tok::Fn)),
            !(tok_at(old(self).toks(), old(self).pos as int) matches Some(Tok::Return)),
            !(tok_at(old(self).toks(), old(self).pos as int) matches Some(Tok::If)),
            tok_at(old(self).toks(), old(self).pos as int) matches Some(Tok::Ident(_))
                ==> tok_at(old(self).toks(), old(self).pos + 1) != Some(Tok::Eq),
        ensures
            final(self).input == old(self).input,
            final(self).wf(),
            r is Ok ==> final(self).pos > old(self).pos,
            agrees_stmt(r, final(self).pos, p_single(old(self).toks(), old(self).pos as int)),
        decreases old(self).input@.len() - old(self).pos, 6int,
    {
        let e = self.expr()?;
        Ok(Statement::ExprStatement { expr: e })
    }
}

} // verus!
