use vstd::prelude::*;
use crate::env::{ft_model, Env, FunctionTable};
use crate::syntax::{
    args_model, args_size, copy_names, copy_statement, decl_model, expr_model, expr_size,
    lemma_args_model_index, lemma_args_model_len, lemma_args_size, stmt_size, names_model,
    stmt_model, BinOp,
    DeclM, Declaration, Expr, ExprM, Statement, StmtM, Syntax,
};

verus! {

/// How deep function calls may nest before evaluation gives up.
pub const MAX_CALL_DEPTH: u64 = 200;

/// Why evaluation stopped.
#[derive(Debug, PartialEq, Eq, Clone)]
pub enum EvalError {
    UnboundVariable(String),
    UnboundFunction(String),
    DivisionByZero,
    Overflow,
    /// The named function's body ended without a `return`.
    MissingReturn(String),
    CallDepthExceeded,
}

/// Model of an evaluation error.
pub enum Fault {
    UnboundVariable(Seq<char>),
    UnboundFunction(Seq<char>),
    DivisionByZero,
    Overflow,
    MissingReturn(Seq<char>),
    CallDepthExceeded,
}

impl View for EvalError {
    type V = Fault;

    open spec fn view(&self) -> Fault {
        match self {
            EvalError::UnboundVariable(s) => Fault::UnboundVariable(s@),
            EvalError::UnboundFunction(s) => Fault::UnboundFunction(s@),
            EvalError::DivisionByZero => Fault::DivisionByZero,
            EvalError::Overflow => Fault::Overflow,
            EvalError::MissingReturn(s) => Fault::MissingReturn(s@),
            EvalError::CallDepthExceeded => Fault::CallDepthExceeded,
        }
    }
}

pub type EnvM = Map<Seq<char>, i32>;

pub type FtM = Map<Seq<char>, DeclM>;

/// The variable through which a function body hands back its result.
pub open spec fn return_key() -> Seq<char> {
    seq!['r', 'e', 't', 'u', 'r', 'n']
}

/// Integer division rounding toward zero.
pub open spec fn trunc_div(a: int, b: int) -> int {
    let q = (if a < 0 { -a } else { a }) / (if b < 0 { -b } else { b });
    if (a < 0) != (b < 0) { -q } else { q }
}

pub open spec fn in_i32(v: int) -> bool {
    i32::MIN <= v <= i32::MAX
}

/// An operator applied to two values; a result outside `i32` is an overflow.
pub open spec fn apply(op: BinOp, a: i32, b: i32) -> Result<i32, Fault> {
    let v = match op {
        BinOp::Add => a + b,
        BinOp::Sub => a - b,
        BinOp::Mul => a * b,
        BinOp::Div => trunc_div(a as int, b as int),
    };
    if op == BinOp::Div && b == 0 {
        Err(Fault::DivisionByZero)
    } else if !in_i32(v) {
        Err(Fault::Overflow)
    } else {
        Ok(v as i32)
    }
}

/// Value of `e` under `env`, and the function table after it; calls may nest
/// `depth` deep.
pub open spec fn sem_expr(e: ExprM, env: EnvM, ft: FtM, depth: nat) -> Result<(i32, FtM), Fault>
    decreases depth, expr_size(e),
{
    match e {
        ExprM::Number(n) => Ok((n, ft)),
        ExprM::Var(x) => if env.contains_key(x) {
            Ok((env[x], ft))
        } else {
            Err(Fault::UnboundVariable(x))
        },
        ExprM::Binary { op, lhs, rhs } => match sem_expr(*lhs, env, ft, depth) {
            Ok((a, ft1)) => match sem_expr(*rhs, env, ft1, depth) {
                Ok((b, ft2)) => match apply(op, a, b) {
                    Ok(v) => Ok((v, ft2)),
                    Err(f) => Err(f),
                },
                Err(f) => Err(f),
            },
            Err(f) => Err(f),
        },
        ExprM::Call { id, args } => if !ft.contains_key(id) {
            Err(Fault::UnboundFunction(id))
        } else if depth == 0 {
            Err(Fault::CallDepthExceeded)
        } else {
            let d = ft[id];
            match sem_bind(d.params, args, 0, env, ft, Map::empty(), depth) {
                Ok((local, ft1)) => match sem_stmt(d.body, local, ft1, (depth - 1) as nat) {
                    Ok((out, ft2)) => if out.contains_key(return_key()) {
                        Ok((out[return_key()], ft2))
                    } else {
                        Err(Fault::MissingReturn(id))
                    },
                    Err(f) => Err(f),
                },
                Err(f) => Err(f),
            }
        },
    }
}

/// Binds `params[k..]` to the values of `args[k..]`, pairwise and in order,
/// into `local`; the shorter of the two lists decides how many.
pub open spec fn sem_bind(
    params: Seq<Seq<char>>,
    args: Seq<ExprM>,
    k: int,
    env: EnvM,
    ft: FtM,
    local: EnvM,
    depth: nat,
) -> Result<(EnvM, FtM), Fault>
    decreases depth, args_size(args, k),
{
    if k < 0 || k >= params.len() || k >= args.len() {
        Ok((local, ft))
    } else {
        match sem_expr(args[k], env, ft, depth) {
            Ok((v, ft1)) => sem_bind(params, args, k + 1, env, ft1, local.insert(params[k], v), depth),
            Err(f) => Err(f),
        }
    }
}

/// The environment and function table after running `s`.
pub open spec fn sem_stmt(s: StmtM, env: EnvM, ft: FtM, depth: nat) -> Result<(EnvM, FtM), Fault>
    decreases depth, stmt_size(s),
{
    match s {
        StmtM::Expr(e) => match sem_expr(e, env, ft, depth) {
            Ok((_, ft1)) => Ok((env, ft1)),
            Err(f) => Err(f),
        },
        StmtM::Call(e) => match sem_expr(e, env, ft, depth) {
            Ok((_, ft1)) => Ok((env, ft1)),
            Err(f) => Err(f),
        },
        StmtM::Compound(a, b) => match sem_stmt(*a, env, ft, depth) {
            Ok((env1, ft1)) => sem_stmt(*b, env1, ft1, depth),
            Err(f) => Err(f),
        },
        StmtM::Define { id, params, body } => Ok((env, ft.insert(id, DeclM { params, body: *body }))),
        StmtM::Return(e) => match sem_expr(e, env, ft, depth) {
            Ok((v, ft1)) => Ok((env.insert(return_key(), v), ft1)),
            Err(f) => Err(f),
        },
        StmtM::Assign(x, e) => match sem_expr(e, env, ft, depth) {
            Ok((v, ft1)) => Ok((env.insert(x, v), ft1)),
            Err(f) => Err(f),
        },
        StmtM::If(c, t, e) => match sem_expr(c, env, ft, depth) {
            Ok((v, ft1)) => if v > 0 {
                sem_stmt(*t, env, ft1, depth)
            } else {
                sem_stmt(*e, env, ft1, depth)
            },
            Err(f) => Err(f),
        },
        StmtM::Null => Ok((env, ft)),
    }
}

/// `r` and the final function table agree with the outcome `s`.
pub open spec fn agrees_val(r: Result<i32, EvalError>, ft: FtM, s: Result<(i32, FtM), Fault>) -> bool {
    match s {
        Ok((v, f)) => r == Ok::<i32, EvalError>(v) && ft == f,
        Err(f) => r is Err && r->Err_0@ == f,
    }
}

/// `r` and the final environment and function table agree with the outcome `s`.
pub open spec fn agrees_run(
    r: Result<(), EvalError>,
    env: EnvM,
    ft: FtM,
    s: Result<(EnvM, FtM), Fault>,
) -> bool {
    match s {
        Ok((e, f)) => r is Ok && env == e && ft == f,
        Err(f) => r is Err && r->Err_0@ == f,
    }
}

/// Applies `op`, failing on division by zero and on overflow.
fn apply_op(op: BinOp, a: i32, b: i32) -> (r: Result<i32, EvalError>)
    ensures
        match apply(op, a, b) {
            Ok(v) => r == Ok::<i32, EvalError>(v),
            Err(f) => r is Err && r->Err_0@ == f,
        },
{
    let v = match op {
        BinOp::Add => a.checked_add(b),
        BinOp::Sub => a.checked_sub(b),
        BinOp::Mul => a.checked_mul(b),
        BinOp::Div => {
            if b == 0 {
                return Err(EvalError::DivisionByZero);
            }
            a.checked_div(b)
        },
    };
    match v {
        Some(v) => Ok(v),
        None => Err(EvalError::Overflow),
    }
}

/// Evaluates an expression. A call runs the callee's body in a fresh
/// environment that holds only its parameters.
fn calc(expr: &Expr, env: &Env, ft: &mut FunctionTable, depth: u64) -> (r: Result<i32, EvalError>)
    ensures
        agrees_val(r, ft_model(final(ft)@), sem_expr(expr_model(*expr), env@, ft_model(old(ft)@), depth as nat)),
        forall|k: Seq<char>| old(ft)@.contains_key(k) ==> #[trigger] final(ft)@.contains_key(k),
    decreases depth, expr_size(expr_model(*expr)),
{
    match expr {
        Expr::Number(n) => Ok(*n),
        Expr::Var(s) => match env.get(s.as_str()) {
            Some(v) => Ok(*v),
            None => Err(EvalError::UnboundVariable(s.clone())),
        },
        Expr::Binary { op, lhs, rhs } => {
            let a = calc(lhs, env, ft, depth)?;
            let b = calc(rhs, env, ft, depth)?;
            apply_op(*op, a, b)
        },
        Expr::FunctionCall { id, args } => {
            let (params, body) = match ft.get(id.as_str()) {
                Some(Declaration::Function { params, body }) => (copy_names(params), copy_statement(body)),
                None => {
                    return Err(EvalError::UnboundFunction(id.clone()));
                },
            };
            if depth == 0 {
                return Err(EvalError::CallDepthExceeded);
            }
            let ghost f0 = ft_model(ft@);
            let ghost d = f0[id@];
            let mut local = Env::new();
            let mut k: usize = 0;
            while k < params.len() && k < args.len()
                invariant
                    forall|k: Seq<char>| old(ft)@.contains_key(k) ==> #[trigger] ft@.contains_key(k),
                    f0 == ft_model(old(ft)@),
                    f0.contains_key(id@),
                    d == f0[id@],
                    stmt_model(body) == d.body,
                    depth > 0,
                    expr_model(*expr) == (ExprM::Call { id: id@, args: args_model(args@, args@.len() as int) }),
                    args_size(args_model(args@, args@.len() as int), 0) < expr_size(expr_model(*expr)),
                    k <= params@.len(),
                    k <= args@.len(),
                    names_model(params@) == d.params,
                    sem_bind(d.params, args_model(args@, args@.len() as int), 0, env@, f0, Map::empty(), depth as nat)
                        == sem_bind(d.params, args_model(args@, args@.len() as int), k as int, env@, ft_model(ft@), local@, depth as nat),
                decreases args@.len() - k,
            {
                proof {
                    lemma_args_model_index(args@, args@.len() as int, k as int);
                    lemma_args_size(args_model(args@, args@.len() as int), 0, k as int);
                }
                let v = calc(&args[k], env, ft, depth);
                match v {
                    Ok(v) => {
                        local.insert(params[k].clone(), v);
                    },
                    Err(e) => {
                        return Err(e);
                    },
                }
                k = k + 1;
            }
            proof {
                lemma_args_model_len(args@, args@.len() as int);
            }
            exec(&body, &mut local, ft, depth - 1)?;
            proof {
                reveal_strlit("return");
                assert("return"@ =~= return_key());
            }
            match local.get("return") {
                Some(v) => Ok(*v),
                None => Err(EvalError::MissingReturn(id.clone())),
            }
        },
    }
}

/// Runs a statement against an environment and the function table.
fn exec(statement: &Statement, env: &mut Env, ft: &mut FunctionTable, depth: u64) -> (r: Result<(), EvalError>)
    ensures
        agrees_run(
            r,
            final(env)@,
            ft_model(final(ft)@),
            sem_stmt(stmt_model(*statement), old(env)@, ft_model(old(ft)@), depth as nat),
        ),
        forall|k: Seq<char>| old(ft)@.contains_key(k) ==> #[trigger] final(ft)@.contains_key(k),
    decreases depth, stmt_size(stmt_model(*statement)),
{
    match statement {
        Statement::ExprStatement { expr } => {
            calc(expr, env, ft, depth)?;
            Ok(())
        },
        Statement::FunctionCall { expr } => {
            calc(expr, env, ft, depth)?;
            Ok(())
        },
        Statement::CompoundStatement { st1, st2 } => {
            exec(st1, env, ft, depth)?;
            exec(st2, env, ft, depth)
        },
        Statement::FunctionDefine { id, params, body } => {
            let decl = Declaration::Function { params: copy_names(params), body: Box::new(copy_statement(body)) };
            let ghost dm = decl_model(decl);
            ft.insert(id.clone(), decl);
            assert(ft_model(ft@) =~= ft_model(old(ft)@).insert(id@, dm));
            Ok(())
        },
        Statement::Return { expr } => {
            let value = calc(expr, env, ft, depth)?;
            proof {
                reveal_strlit("return");
                assert("return"@ =~= return_key());
            }
            env.insert("return".to_owned(), value);
            Ok(())
        },
        Statement::Assign { id, e } => {
            let value = calc(e, env, ft, depth)?;
            env.insert(id.clone(), value);
            Ok(())
        },
        Statement::If { condition, then, els } => {
            if calc(condition, env, ft, depth)? > 0 {
                exec(then, env, ft, depth)
            } else {
                exec(els, env, ft, depth)
            }
        },
        Statement::Null => Ok(()),
    }
}

/// Runs a parsed program, updating `env` and `ft` in place; function calls
/// may nest `MAX_CALL_DEPTH` deep. A program that fails leaves both as they
/// were: an aborted run has no partial result.
pub fn eval(syntax: Syntax, env: &mut Env, ft: &mut FunctionTable) -> (r: Result<(), EvalError>)
    ensures
        match syntax {
            Syntax::Statement(st) => agrees_run(
                r,
                final(env)@,
                ft_model(final(ft)@),
                sem_stmt(stmt_model(st), old(env)@, ft_model(old(ft)@), MAX_CALL_DEPTH as nat),
            ),
        },
        r is Err ==> final(env)@ == old(env)@ && final(ft)@ == old(ft)@,
{
    match syntax {
        Syntax::Statement(st) => {
            let mut work_env = env.copy();
            let mut work_ft = ft.copy();
            exec(&st, &mut work_env, &mut work_ft, MAX_CALL_DEPTH)?;
            *env = work_env;
            *ft = work_ft;
            Ok(())
        },
    }
}

} // verus!
