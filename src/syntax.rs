use vstd::prelude::*;

verus! {

/// A lexical unit of the language.
#[derive(Debug, Clone)]
pub enum Token {
    PLUS,
    MINUS,
    STAR,
    SLASH,
    LPAR,
    RPAR,
    LBRACE,
    RBRACE,
    COMMA,
    EQ,
    NUMBER(i32),
    IF,
    ELSE,
    IDENT(String),
    SEMICOLON,
    FN,
    RETURN,
}

/// The four arithmetic operators.
#[derive(Debug, PartialEq, Eq, Clone, Copy)]
pub enum BinOp {
    Add,
    Sub,
    Mul,
    Div,
}

#[derive(Debug, PartialEq)]
pub enum Expr {
    Binary { op: BinOp, lhs: Box<Expr>, rhs: Box<Expr> },
    Number(i32),
    Var(String),
    FunctionCall { id: String, args: Vec<Expr> },
}

#[derive(Debug, PartialEq)]
pub enum Statement {
    ExprStatement { expr: Expr },
    CompoundStatement { st1: Box<Statement>, st2: Box<Statement> },
    FunctionDefine { id: String, params: Vec<String>, body: Box<Statement> },
    FunctionCall { expr: Expr },
    Return { expr: Box<Expr> },
    Assign { id: String, e: Box<Expr> },
    If { condition: Box<Expr>, then: Box<Statement>, els: Box<Statement> },
    Null,
}

/// A declared function as kept in the function table.
#[derive(Debug, PartialEq)]
pub enum Declaration {
    Function { params: Vec<String>, body: Box<Statement> },
}

/// The root of a parsed program.
#[derive(Debug, PartialEq)]
pub enum Syntax {
    Statement(Statement),
}

/// Mathematical model of a token: names become character sequences.
pub enum Tok {
    Plus,
    Minus,
    Star,
    Slash,
    LPar,
    RPar,
    LBrace,
    RBrace,
    Comma,
    Eq,
    Number(i32),
    If,
    Else,
    Ident(Seq<char>),
    Semicolon,
    Fn,
    Return,
}

/// Mathematical model of an expression.
pub enum ExprM {
    Binary { op: BinOp, lhs: Box<ExprM>, rhs: Box<ExprM> },
    Number(i32),
    Var(Seq<char>),
    Call { id: Seq<char>, args: Seq<ExprM> },
}

/// Mathematical model of a statement.
pub enum StmtM {
    Expr(ExprM),
    Compound(Box<StmtM>, Box<StmtM>),
    Define { id: Seq<char>, params: Seq<Seq<char>>, body: Box<StmtM> },
    Call(ExprM),
    Return(ExprM),
    Assign(Seq<char>, ExprM),
    If(ExprM, Box<StmtM>, Box<StmtM>),
    Null,
}

/// Mathematical model of a declaration.
pub struct DeclM {
    pub params: Seq<Seq<char>>,
    pub body: StmtM,
}

impl View for Token {
    type V = Tok;

    open spec fn view(&self) -> Tok {
        match self {
            Token::PLUS => Tok::Plus,
            Token::MINUS => Tok::Minus,
            Token::STAR => Tok::Star,
            Token::SLASH => Tok::Slash,
            Token::LPAR => Tok::LPar,
            Token::RPAR => Tok::RPar,
            Token::LBRACE => Tok::LBrace,
            Token::RBRACE => Tok::RBrace,
            Token::COMMA => Tok::Comma,
            Token::EQ => Tok::Eq,
            Token::NUMBER(n) => Tok::Number(*n),
            Token::IF => Tok::If,
            Token::ELSE => Tok::Else,
            Token::IDENT(s) => Tok::Ident(s@),
            Token::SEMICOLON => Tok::Semicolon,
            Token::FN => Tok::Fn,
            Token::RETURN => Tok::Return,
        }
    }
}

impl PartialEq for Token {
    fn eq(&self, o: &Token) -> (r: bool) {
        match (self, o) {
            (Token::NUMBER(a), Token::NUMBER(b)) => *a == *b,
            (Token::IDENT(a), Token::IDENT(b)) => *a == *b,
            (Token::PLUS, Token::PLUS) => true,
            (Token::MINUS, Token::MINUS) => true,
            (Token::STAR, Token::STAR) => true,
            (Token::SLASH, Token::SLASH) => true,
            (Token::LPAR, Token::LPAR) => true,
            (Token::RPAR, Token::RPAR) => true,
            (Token::LBRACE, Token::LBRACE) => true,
            (Token::RBRACE, Token::RBRACE) => true,
            (Token::COMMA, Token::COMMA) => true,
            (Token::EQ, Token::EQ) => true,
            (Token::IF, Token::IF) => true,
            (Token::ELSE, Token::ELSE) => true,
            (Token::SEMICOLON, Token::SEMICOLON) => true,
            (Token::FN, Token::FN) => true,
            (Token::RETURN, Token::RETURN) => true,
            _ => false,
        }
    }
}

impl vstd::std_specs::cmp::PartialEqSpecImpl for Token {
    open spec fn obeys_eq_spec() -> bool {
        true
    }

    open spec fn eq_spec(&self, o: &Token) -> bool {
        self@ == o@
    }
}

/// The models of a sequence of tokens.
pub open spec fn toks_model(v: Seq<Token>) -> Seq<Tok> {
    v.map_values(|t: Token| t@)
}

/// The models of a sequence of names.
pub open spec fn names_model(v: Seq<String>) -> Seq<Seq<char>> {
    v.map_values(|s: String| s@)
}

pub open spec fn expr_model(e: Expr) -> ExprM
    decreases e,
{
    match e {
        Expr::Binary { op, lhs, rhs } => ExprM::Binary {
            op,
            lhs: Box::new(expr_model(*lhs)),
            rhs: Box::new(expr_model(*rhs)),
        },
        Expr::Number(n) => ExprM::Number(n),
        Expr::Var(s) => ExprM::Var(s@),
        Expr::FunctionCall { id, args } => ExprM::Call {
            id: id@,
            args: args_model(args@, args@.len() as int),
        },
    }
}

/// The models of the first `n` expressions of `args`.
pub open spec fn args_model(args: Seq<Expr>, n: int) -> Seq<ExprM>
    decreases args, n,
{
    if n <= 0 || n > args.len() {
        Seq::empty()
    } else {
        args_model(args, n - 1).push(expr_model(args[n - 1]))
    }
}

pub open spec fn stmt_model(s: Statement) -> StmtM
    decreases s,
{
    match s {
        Statement::ExprStatement { expr } => StmtM::Expr(expr_model(expr)),
        Statement::CompoundStatement { st1, st2 } => StmtM::Compound(
            Box::new(stmt_model(*st1)),
            Box::new(stmt_model(*st2)),
        ),
        Statement::FunctionDefine { id, params, body } => StmtM::Define {
            id: id@,
            params: names_model(params@),
            body: Box::new(stmt_model(*body)),
        },
        Statement::FunctionCall { expr } => StmtM::Call(expr_model(expr)),
        Statement::Return { expr } => StmtM::Return(expr_model(*expr)),
        Statement::Assign { id, e } => StmtM::Assign(id@, expr_model(*e)),
        Statement::If { condition, then, els } => StmtM::If(
            expr_model(*condition),
            Box::new(stmt_model(*then)),
            Box::new(stmt_model(*els)),
        ),
        Statement::Null => StmtM::Null,
    }
}

pub open spec fn decl_model(d: Declaration) -> DeclM {
    match d {
        Declaration::Function { params, body } => DeclM {
            params: names_model(params@),
            body: stmt_model(*body),
        },
    }
}

} // verus!

verus! {

proof fn lemma_args_model_prefix(s: Seq<Expr>, e: Expr, k: int)
    requires
        0 <= k <= s.len(),
    ensures
        args_model(s.push(e), k) == args_model(s, k),
    decreases k,
{
    if k > 0 {
        lemma_args_model_prefix(s, e, k - 1);
    }
}

/// Appending an expression appends its model.
pub proof fn lemma_args_model_push(s: Seq<Expr>, e: Expr)
    ensures
        args_model(s.push(e), s.len() + 1int) == args_model(s, s.len() as int).push(expr_model(e)),
{
    lemma_args_model_prefix(s, e, s.len() as int);
}

} // verus!

verus! {

/// Number of nodes of an expression.
pub open spec fn expr_size(e: ExprM) -> nat
    decreases e, 0int,
{
    match e {
        ExprM::Binary { lhs, rhs, .. } => 1 + expr_size(*lhs) + expr_size(*rhs),
        ExprM::Call { args, .. } => 1 + args_size(args, 0),
        _ => 1,
    }
}

/// Number of nodes of the expressions `a[k..]`.
pub open spec fn args_size(a: Seq<ExprM>, k: int) -> nat
    decreases a, a.len() - k,
{
    if k < 0 || k >= a.len() {
        0
    } else {
        1 + expr_size(a[k]) + args_size(a, k + 1)
    }
}

/// Number of nodes of a statement.
pub open spec fn stmt_size(s: StmtM) -> nat
    decreases s,
{
    match s {
        StmtM::Expr(e) => 1 + expr_size(e),
        StmtM::Call(e) => 1 + expr_size(e),
        StmtM::Return(e) => 1 + expr_size(e),
        StmtM::Assign(_, e) => 1 + expr_size(e),
        StmtM::Compound(a, b) => 1 + stmt_size(*a) + stmt_size(*b),
        StmtM::If(c, t, e) => 1 + expr_size(c) + stmt_size(*t) + stmt_size(*e),
        StmtM::Define { body, .. } => 1 + stmt_size(*body),
        StmtM::Null => 1,
    }
}

/// An argument is smaller than the arguments from `j` on that hold it.
pub proof fn lemma_args_size(a: Seq<ExprM>, j: int, k: int)
    requires
        0 <= j <= k < a.len(),
    ensures
        expr_size(a[k]) < args_size(a, j),
    decreases k - j,
{
    if j < k {
        lemma_args_size(a, j + 1, k);
    }
}

/// The `k`-th model is the model of the `k`-th expression.
pub proof fn lemma_args_model_index(s: Seq<Expr>, n: int, k: int)
    requires
        0 <= k < n <= s.len(),
    ensures
        args_model(s, n).len() == n,
        args_model(s, n)[k] == expr_model(s[k]),
    decreases n,
{
    lemma_args_model_len(s, n);
    if k < n - 1 {
        lemma_args_model_index(s, n - 1, k);
    }
}

pub proof fn lemma_args_model_len(s: Seq<Expr>, n: int)
    requires
        0 <= n <= s.len(),
    ensures
        args_model(s, n).len() == n,
    decreases n,
{
    if n > 0 {
        lemma_args_model_len(s, n - 1);
    }
}

} // verus!

verus! {

/// A copy of `e`.
pub(crate) fn copy_expr(e: &Expr) -> (r: Expr)
    ensures
        expr_model(r) == expr_model(*e),
    decreases expr_size(expr_model(*e)),
{
    match e {
        Expr::Binary { op, lhs, rhs } => Expr::Binary {
            op: *op,
            lhs: Box::new(copy_expr(lhs)),
            rhs: Box::new(copy_expr(rhs)),
        },
        Expr::Number(n) => Expr::Number(*n),
        Expr::Var(s) => Expr::Var(s.clone()),
        Expr::FunctionCall { id, args } => {
            let mut out: Vec<Expr> = Vec::new();
            let mut k: usize = 0;
            while k < args.len()
                invariant
                    args_size(args_model(args@, args@.len() as int), 0) < expr_size(expr_model(*e)),
                    k <= args@.len(),
                    out@.len() == k,
                    args_model(out@, k as int) == args_model(args@, k as int),
                decreases args@.len() - k,
            {
                proof {
                    lemma_args_model_index(args@, args@.len() as int, k as int);
                    lemma_args_size(args_model(args@, args@.len() as int), 0, k as int);
                }
                let a = copy_expr(&args[k]);
                proof {
                    lemma_args_model_push(out@, a);
                }
                out.push(a);
                k = k + 1;
            }
            Expr::FunctionCall { id: id.clone(), args: out }
        },
    }
}

/// A copy of a list of names.
pub(crate) fn copy_names(v: &Vec<String>) -> (r: Vec<String>)
    ensures
        names_model(r@) == names_model(v@),
{
    let mut out: Vec<String> = Vec::new();
    let mut k: usize = 0;
    while k < v.len()
        invariant
            k <= v@.len(),
            out@.len() == k,
            forall|j: int| 0 <= j < k ==> (#[trigger] out@[j])@ == v@[j]@,
        decreases v@.len() - k,
    {
        out.push(v[k].clone());
        k = k + 1;
    }
    assert(names_model(out@) =~= names_model(v@));
    out
}

/// A copy of `s`.
pub(crate) fn copy_statement(s: &Statement) -> (r: Statement)
    ensures
        stmt_model(r) == stmt_model(*s),
    decreases stmt_size(stmt_model(*s)),
{
    match s {
        Statement::ExprStatement { expr } => Statement::ExprStatement { expr: copy_expr(expr) },
        Statement::CompoundStatement { st1, st2 } => Statement::CompoundStatement {
            st1: Box::new(copy_statement(st1)),
            st2: Box::new(copy_statement(st2)),
        },
        Statement::FunctionDefine { id, params, body } => Statement::FunctionDefine {
            id: id.clone(),
            params: copy_names(params),
            body: Box::new(copy_statement(body)),
        },
        Statement::FunctionCall { expr } => Statement::FunctionCall { expr: copy_expr(expr) },
        Statement::Return { expr } => Statement::Return { expr: Box::new(copy_expr(expr)) },
        Statement::Assign { id, e } => Statement::Assign { id: id.clone(), e: Box::new(copy_expr(e)) },
        Statement::If { condition, then, els } => Statement::If {
            condition: Box::new(copy_expr(condition)),
            then: Box::new(copy_statement(then)),
            els: Box::new(copy_statement(els)),
        },
        Statement::Null => Statement::Null,
    }
}

/// A copy of a declaration.
pub(crate) fn copy_decl(d: &Declaration) -> (r: Declaration)
    ensures
        decl_model(r) == decl_model(*d),
{
    match d {
        Declaration::Function { params, body } => Declaration::Function {
            params: copy_names(params),
            body: Box::new(copy_statement(body)),
        },
    }
}

} // verus!
