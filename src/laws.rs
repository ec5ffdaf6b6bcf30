use vstd::prelude::*;
use crate::evaluator::{apply, sem_bind, sem_expr, sem_stmt, trunc_div, EnvM, Fault, FtM};
use crate::parser::grammar::{
    bin, p_expr, p_add_rest, p_mul, p_mul_rest, p_primary, p_program, p_single, p_stmt,
};
use crate::syntax::{BinOp, ExprM, StmtM, Tok};

verus! {

/// The token of an operator.
pub open spec fn op_tok(op: BinOp) -> Tok {
    match op {
        BinOp::Add => Tok::Plus,
        BinOp::Sub => Tok::Minus,
        BinOp::Mul => Tok::Star,
        BinOp::Div => Tok::Slash,
    }
}

/// An operator on unbounded integers; division rounds toward zero.
pub open spec fn arith(op: BinOp, a: int, b: int) -> int {
    match op {
        BinOp::Add => a + b,
        BinOp::Sub => a - b,
        BinOp::Mul => a * b,
        BinOp::Div => trunc_div(a, b),
    }
}

/// The tokens that spell the integer `a`: a negative one is `-` followed by
/// its magnitude, as the scanner produces it.
pub open spec fn literal_toks(a: i32) -> Seq<Tok> {
    if a < 0 {
        seq![Tok::Minus, Tok::Number(-a as i32)]
    } else {
        seq![Tok::Number(a)]
    }
}

/// The tokens of `x = a op b`.
pub open spec fn binary_assignment(x: Seq<char>, a: i32, op: BinOp, b: i32) -> Seq<Tok> {
    seq![Tok::Ident(x), Tok::Eq] + literal_toks(a) + seq![op_tok(op)] + literal_toks(b)
}

/// The tokens of an integer read as an operand give that integer.
proof fn lemma_literal_operand(t: Seq<Tok>, i: int, a: i32)
    requires
        a != i32::MIN,
        0 <= i,
        i + literal_toks(a).len() <= t.len(),
        forall|m: int| 0 <= m < literal_toks(a).len() ==> t[i + m] == #[trigger] literal_toks(a)[m],
    ensures
        p_primary(t, i) == Ok::<(ExprM, int), crate::parser::ParseError>(
            (ExprM::Number(a), i + literal_toks(a).len() as int),
        ),
{
    let l = literal_toks(a);
    if a < 0 {
        assert(t[i + 0] == l[0] && t[i + 1] == l[1]);
        assert(-((-a) as i32) == a);
    } else {
        assert(t[i + 0] == l[0]);
    }
}

/// `x = a op b` parses as the assignment of `a op b` to `x`, for any two
/// integers written as the scanner spells them; running it binds `x` to the
/// integer result and leaves everything else alone, unless the result does
/// not fit in `i32` (an overflow) or it divides by zero.
pub proof fn law_binary_assignment(
    x: Seq<char>,
    a: i32,
    op: BinOp,
    b: i32,
    env: EnvM,
    ft: FtM,
    depth: nat,
)
    requires
        a != i32::MIN,
        b != i32::MIN,
    ensures
        p_program(binary_assignment(x, a, op, b)) == Ok::<StmtM, crate::parser::ParseError>(
            StmtM::Assign(x, bin(op, ExprM::Number(a), ExprM::Number(b))),
        ),
        !(op == BinOp::Div && b == 0) && i32::MIN <= arith(op, a as int, b as int) <= i32::MAX
            ==> sem_stmt(StmtM::Assign(x, bin(op, ExprM::Number(a), ExprM::Number(b))), env, ft, depth)
            == Ok::<(EnvM, FtM), Fault>((env.insert(x, arith(op, a as int, b as int) as i32), ft)),
        op == BinOp::Div && b == 0 ==> sem_stmt(
            StmtM::Assign(x, bin(op, ExprM::Number(a), ExprM::Number(b))),
            env,
            ft,
            depth,
        ) == Err::<(EnvM, FtM), Fault>(Fault::DivisionByZero),
        !(op == BinOp::Div && b == 0) && !(i32::MIN <= arith(op, a as int, b as int) <= i32::MAX)
            ==> sem_stmt(StmtM::Assign(x, bin(op, ExprM::Number(a), ExprM::Number(b))), env, ft, depth)
            == Err::<(EnvM, FtM), Fault>(Fault::Overflow),
{
    let t = binary_assignment(x, a, op, b);
    let (la, lb) = (literal_toks(a), literal_toks(b));
    let q: int = 2 + la.len() as int;
    let r: int = q + 1;
    let end: int = r + lb.len() as int;
    let na = ExprM::Number(a);
    let nb = ExprM::Number(b);
    let e = bin(op, na, nb);
    assert(t.len() == end);
    assert(t[0] == Tok::Ident(x) && t[1] == Tok::Eq && t[q] == op_tok(op));
    assert forall|m: int| 0 <= m < la.len() implies t[2 + m] == #[trigger] la[m] by {}
    assert forall|m: int| 0 <= m < lb.len() implies t[r + m] == #[trigger] lb[m] by {}
    lemma_literal_operand(t, 2, a);
    lemma_literal_operand(t, r, b);
    assert(p_mul_rest(t, end, e) == Ok::<(ExprM, int), crate::parser::ParseError>((e, end)));
    assert(p_add_rest(t, end, e) == Ok::<(ExprM, int), crate::parser::ParseError>((e, end)));
    if op == BinOp::Mul || op == BinOp::Div {
        assert(p_mul_rest(t, q, na) == Ok::<(ExprM, int), crate::parser::ParseError>((e, end)));
        assert(p_mul(t, 2) == Ok::<(ExprM, int), crate::parser::ParseError>((e, end)));
    } else {
        assert(p_mul_rest(t, q, na) == Ok::<(ExprM, int), crate::parser::ParseError>((na, q)));
        assert(p_mul(t, 2) == Ok::<(ExprM, int), crate::parser::ParseError>((na, q)));
        assert(p_mul_rest(t, end, nb) == Ok::<(ExprM, int), crate::parser::ParseError>((nb, end)));
        assert(p_mul(t, r) == Ok::<(ExprM, int), crate::parser::ParseError>((nb, end)));
        assert(p_add_rest(t, q, na) == Ok::<(ExprM, int), crate::parser::ParseError>((e, end)));
    }
    assert(p_expr(t, 2) == Ok::<(ExprM, int), crate::parser::ParseError>((e, end)));
    assert(p_single(t, 0) == Ok::<(StmtM, int), crate::parser::ParseError>((StmtM::Assign(x, e), end)));
    assert(p_stmt(t, 0) == Ok::<(StmtM, int), crate::parser::ParseError>((StmtM::Assign(x, e), end)));
    assert(sem_expr(na, env, ft, depth) == Ok::<(i32, FtM), Fault>((a, ft)));
    assert(sem_expr(nb, env, ft, depth) == Ok::<(i32, FtM), Fault>((b, ft)));
    let res = apply(op, a, b);
    assert(sem_expr(e, env, ft, depth) == match res {
        Ok(v) => Ok::<(i32, FtM), Fault>((v, ft)),
        Err(f) => Err(f),
    });
    assert(sem_stmt(StmtM::Assign(x, e), env, ft, depth) == match res {
        Ok(v) => Ok::<(EnvM, FtM), Fault>((env.insert(x, v), ft)),
        Err(f) => Err(f),
    });
}

pub open spec fn is_additive(op: BinOp) -> bool {
    op == BinOp::Add || op == BinOp::Sub
}

/// The tokens of `a p b q c`.
pub open spec fn chain(a: i32, p: BinOp, b: i32, q: BinOp, c: i32) -> Seq<Tok> {
    seq![Tok::Number(a), op_tok(p), Tok::Number(b), op_tok(q), Tok::Number(c)]
}

/// Operators of one level group to the left: `a p b q c` is `(a p b) q c`.
pub proof fn law_left_associative(a: i32, p: BinOp, b: i32, q: BinOp, c: i32)
    requires
        is_additive(p) == is_additive(q),
    ensures
        p_expr(chain(a, p, b, q, c), 0) == Ok::<(ExprM, int), crate::parser::ParseError>(
            (bin(q, bin(p, ExprM::Number(a), ExprM::Number(b)), ExprM::Number(c)), 5),
        ),
{
    let t = chain(a, p, b, q, c);
    let (na, nb, nc) = (ExprM::Number(a), ExprM::Number(b), ExprM::Number(c));
    let ab = bin(p, na, nb);
    let abc = bin(q, ab, nc);
    assert(t.len() == 5 && t[0] == Tok::Number(a) && t[2] == Tok::Number(b) && t[4] == Tok::Number(c));
    assert(t[1] == op_tok(p) && t[3] == op_tok(q));
    assert(p_primary(t, 0) == Ok::<(ExprM, int), crate::parser::ParseError>((na, 1)));
    assert(p_primary(t, 2) == Ok::<(ExprM, int), crate::parser::ParseError>((nb, 3)));
    assert(p_primary(t, 4) == Ok::<(ExprM, int), crate::parser::ParseError>((nc, 5)));
    assert(p_add_rest(t, 5, abc) == Ok::<(ExprM, int), crate::parser::ParseError>((abc, 5)));
    assert(p_mul_rest(t, 5, nc) == Ok::<(ExprM, int), crate::parser::ParseError>((nc, 5)));
    assert(p_mul_rest(t, 5, abc) == Ok::<(ExprM, int), crate::parser::ParseError>((abc, 5)));
    if is_additive(p) {
        assert(p_mul_rest(t, 1, na) == Ok::<(ExprM, int), crate::parser::ParseError>((na, 1)));
        assert(p_mul_rest(t, 3, nb) == Ok::<(ExprM, int), crate::parser::ParseError>((nb, 3)));
        assert(p_mul(t, 0) == Ok::<(ExprM, int), crate::parser::ParseError>((na, 1)));
        assert(p_mul(t, 2) == Ok::<(ExprM, int), crate::parser::ParseError>((nb, 3)));
        assert(p_mul(t, 4) == Ok::<(ExprM, int), crate::parser::ParseError>((nc, 5)));
        assert(p_add_rest(t, 3, ab) == Ok::<(ExprM, int), crate::parser::ParseError>((abc, 5)));
        assert(p_add_rest(t, 1, na) == Ok::<(ExprM, int), crate::parser::ParseError>((abc, 5)));
    } else {
        assert(p_mul_rest(t, 3, ab) == Ok::<(ExprM, int), crate::parser::ParseError>((abc, 5)));
        assert(p_mul_rest(t, 1, na) == Ok::<(ExprM, int), crate::parser::ParseError>((abc, 5)));
        assert(p_mul(t, 0) == Ok::<(ExprM, int), crate::parser::ParseError>((abc, 5)));
    }
}

/// `*` and `/` bind tighter than `+` and `-`: `a p b q c` with `p` additive
/// and `q` multiplicative is `a p (b q c)`.
pub proof fn law_precedence(a: i32, p: BinOp, b: i32, q: BinOp, c: i32)
    requires
        is_additive(p),
        !is_additive(q),
    ensures
        p_expr(chain(a, p, b, q, c), 0) == Ok::<(ExprM, int), crate::parser::ParseError>(
            (bin(p, ExprM::Number(a), bin(q, ExprM::Number(b), ExprM::Number(c))), 5),
        ),
{
    let t = chain(a, p, b, q, c);
    let (na, nb, nc) = (ExprM::Number(a), ExprM::Number(b), ExprM::Number(c));
    let bc = bin(q, nb, nc);
    let abc = bin(p, na, bc);
    assert(t.len() == 5 && t[0] == Tok::Number(a) && t[2] == Tok::Number(b) && t[4] == Tok::Number(c));
    assert(t[1] == op_tok(p) && t[3] == op_tok(q));
    assert(p_primary(t, 0) == Ok::<(ExprM, int), crate::parser::ParseError>((na, 1)));
    assert(p_primary(t, 2) == Ok::<(ExprM, int), crate::parser::ParseError>((nb, 3)));
    assert(p_primary(t, 4) == Ok::<(ExprM, int), crate::parser::ParseError>((nc, 5)));
    assert(p_mul_rest(t, 1, na) == Ok::<(ExprM, int), crate::parser::ParseError>((na, 1)));
    assert(p_mul(t, 0) == Ok::<(ExprM, int), crate::parser::ParseError>((na, 1)));
    assert(p_mul_rest(t, 5, bc) == Ok::<(ExprM, int), crate::parser::ParseError>((bc, 5)));
    assert(p_mul_rest(t, 3, nb) == Ok::<(ExprM, int), crate::parser::ParseError>((bc, 5)));
    assert(p_mul(t, 2) == Ok::<(ExprM, int), crate::parser::ParseError>((bc, 5)));
    assert(p_add_rest(t, 5, abc) == Ok::<(ExprM, int), crate::parser::ParseError>((abc, 5)));
    assert(p_add_rest(t, 1, na) == Ok::<(ExprM, int), crate::parser::ParseError>((abc, 5)));
}

/// A parenthesized group is one operand: `a q (b p c)` with `q`
/// multiplicative and `p` additive applies `p` first.
pub proof fn law_group_overrides_precedence(a: i32, q: BinOp, b: i32, p: BinOp, c: i32)
    requires
        is_additive(p),
        !is_additive(q),
    ensures
        p_expr(
            seq![Tok::Number(a), op_tok(q), Tok::LPar, Tok::Number(b), op_tok(p), Tok::Number(c), Tok::RPar],
            0,
        ) == Ok::<(ExprM, int), crate::parser::ParseError>(
            (bin(q, ExprM::Number(a), bin(p, ExprM::Number(b), ExprM::Number(c))), 7),
        ),
{
    let t = seq![Tok::Number(a), op_tok(q), Tok::LPar, Tok::Number(b), op_tok(p), Tok::Number(c), Tok::RPar];
    let (na, nb, nc) = (ExprM::Number(a), ExprM::Number(b), ExprM::Number(c));
    let bc = bin(p, nb, nc);
    let abc = bin(q, na, bc);
    assert(t.len() == 7 && t[0] == Tok::Number(a) && t[1] == op_tok(q) && t[2] == Tok::LPar);
    assert(t[3] == Tok::Number(b) && t[4] == op_tok(p) && t[5] == Tok::Number(c) && t[6] == Tok::RPar);
    assert(p_primary(t, 0) == Ok::<(ExprM, int), crate::parser::ParseError>((na, 1)));
    assert(p_primary(t, 3) == Ok::<(ExprM, int), crate::parser::ParseError>((nb, 4)));
    assert(p_primary(t, 5) == Ok::<(ExprM, int), crate::parser::ParseError>((nc, 6)));
    assert(p_mul_rest(t, 4, nb) == Ok::<(ExprM, int), crate::parser::ParseError>((nb, 4)));
    assert(p_mul(t, 3) == Ok::<(ExprM, int), crate::parser::ParseError>((nb, 4)));
    assert(p_mul_rest(t, 6, nc) == Ok::<(ExprM, int), crate::parser::ParseError>((nc, 6)));
    assert(p_mul(t, 5) == Ok::<(ExprM, int), crate::parser::ParseError>((nc, 6)));
    assert(p_add_rest(t, 6, bc) == Ok::<(ExprM, int), crate::parser::ParseError>((bc, 6)));
    assert(p_add_rest(t, 4, nb) == Ok::<(ExprM, int), crate::parser::ParseError>((bc, 6)));
    assert(p_expr(t, 3) == Ok::<(ExprM, int), crate::parser::ParseError>((bc, 6)));
    assert(p_primary(t, 2) == Ok::<(ExprM, int), crate::parser::ParseError>((bc, 7)));
    assert(p_mul_rest(t, 7, abc) == Ok::<(ExprM, int), crate::parser::ParseError>((abc, 7)));
    assert(p_mul_rest(t, 1, na) == Ok::<(ExprM, int), crate::parser::ParseError>((abc, 7)));
    assert(p_mul(t, 0) == Ok::<(ExprM, int), crate::parser::ParseError>((abc, 7)));
    assert(p_add_rest(t, 7, abc) == Ok::<(ExprM, int), crate::parser::ParseError>((abc, 7)));
}

/// `x = -n` binds `x` to the negated literal.
pub proof fn law_negative_literal(x: Seq<char>, n: i32, env: EnvM, ft: FtM, depth: nat)
    requires
        n != i32::MIN,
    ensures
        p_program(seq![Tok::Ident(x), Tok::Eq, Tok::Minus, Tok::Number(n)])
            == Ok::<StmtM, crate::parser::ParseError>(StmtM::Assign(x, ExprM::Number(-n as i32))),
        sem_stmt(StmtM::Assign(x, ExprM::Number(-n as i32)), env, ft, depth) == Ok::<(EnvM, FtM), Fault>(
            (env.insert(x, -n as i32), ft),
        ),
{
    let t = seq![Tok::Ident(x), Tok::Eq, Tok::Minus, Tok::Number(n)];
    let e = ExprM::Number(-n as i32);
    assert(t.len() == 4 && t[0] == Tok::Ident(x) && t[1] == Tok::Eq && t[2] == Tok::Minus && t[3]
        == Tok::Number(n));
    assert(p_primary(t, 2) == Ok::<(ExprM, int), crate::parser::ParseError>((e, 4)));
    assert(p_mul_rest(t, 4, e) == Ok::<(ExprM, int), crate::parser::ParseError>((e, 4)));
    assert(p_mul(t, 2) == Ok::<(ExprM, int), crate::parser::ParseError>((e, 4)));
    assert(p_add_rest(t, 4, e) == Ok::<(ExprM, int), crate::parser::ParseError>((e, 4)));
    assert(p_expr(t, 2) == Ok::<(ExprM, int), crate::parser::ParseError>((e, 4)));
    assert(p_single(t, 0) == Ok::<(StmtM, int), crate::parser::ParseError>((StmtM::Assign(x, e), 4)));
    assert(p_stmt(t, 0) == Ok::<(StmtM, int), crate::parser::ParseError>((StmtM::Assign(x, e), 4)));
    assert(sem_expr(e, env, ft, depth) == Ok::<(i32, FtM), Fault>((-n as i32, ft)));
}

/// A conditional runs exactly one branch: the first when its condition's
/// value is greater than zero, the second otherwise (zero and negative values
/// are false), on the function table the condition left.
pub proof fn law_truthiness(c: ExprM, s1: StmtM, s2: StmtM, env: EnvM, ft: FtM, depth: nat)
    ensures
        sem_stmt(StmtM::If(c, Box::new(s1), Box::new(s2)), env, ft, depth) == match sem_expr(
            c,
            env,
            ft,
            depth,
        ) {
            Ok((v, ft1)) => if v > 0 {
                sem_stmt(s1, env, ft1, depth)
            } else {
                sem_stmt(s2, env, ft1, depth)
            },
            Err(f) => Err(f),
        },
{
}

/// With a literal condition `n`, the first branch runs exactly when `n > 0`.
pub proof fn law_literal_truthiness(n: i32, s1: StmtM, s2: StmtM, env: EnvM, ft: FtM, depth: nat)
    ensures
        sem_stmt(StmtM::If(ExprM::Number(n), Box::new(s1), Box::new(s2)), env, ft, depth) == if n
            > 0 {
            sem_stmt(s1, env, ft, depth)
        } else {
            sem_stmt(s2, env, ft, depth)
        },
{
    assert(sem_expr(ExprM::Number(n), env, ft, depth) == Ok::<(i32, FtM), Fault>((n, ft)));
}

/// `s1; s2` runs `s1` to completion and then runs `s2` on the environment and
/// function table that `s1` left; an error in `s1` stops it.
pub proof fn law_sequencing(s1: StmtM, s2: StmtM, env: EnvM, ft: FtM, depth: nat)
    ensures
        sem_stmt(StmtM::Compound(Box::new(s1), Box::new(s2)), env, ft, depth) == match sem_stmt(
            s1,
            env,
            ft,
            depth,
        ) {
            Ok((env1, ft1)) => sem_stmt(s2, env1, ft1, depth),
            Err(f) => Err(f),
        },
{
}

/// Each of `args` has the same outcome under `env1` as under `env2`, whatever
/// the function table.
pub open spec fn args_agree(args: Seq<ExprM>, env1: EnvM, env2: EnvM, depth: nat) -> bool {
    forall|k: int, f: FtM|
        0 <= k < args.len() ==> #[trigger] sem_expr(args[k], env1, f, depth) == sem_expr(
            args[k],
            env2,
            f,
            depth,
        )
}

proof fn lemma_bind_isolated(
    params: Seq<Seq<char>>,
    args: Seq<ExprM>,
    k: int,
    env1: EnvM,
    env2: EnvM,
    ft: FtM,
    local: EnvM,
    depth: nat,
)
    requires
        args_agree(args, env1, env2, depth),
    ensures
        sem_bind(params, args, k, env1, ft, local, depth) == sem_bind(
            params,
            args,
            k,
            env2,
            ft,
            local,
            depth,
        ),
    decreases args.len() - k,
{
    if 0 <= k < params.len() && k < args.len() {
        assert(sem_expr(args[k], env1, ft, depth) == sem_expr(args[k], env2, ft, depth));
        match sem_expr(args[k], env1, ft, depth) {
            Ok((v, ft1)) => {
                lemma_bind_isolated(params, args, k + 1, env1, env2, ft1, local.insert(params[k], v), depth);
            },
            Err(_) => {},
        }
    }
}

/// A function body runs in an environment that holds only its parameters:
/// when every argument has the same outcome under two caller environments,
/// so has the call, whatever else the callers' variables hold.
pub proof fn law_call_isolation(
    id: Seq<char>,
    args: Seq<ExprM>,
    env1: EnvM,
    env2: EnvM,
    ft: FtM,
    depth: nat,
)
    requires
        args_agree(args, env1, env2, depth),
    ensures
        sem_expr(ExprM::Call { id, args }, env1, ft, depth) == sem_expr(
            ExprM::Call { id, args },
            env2,
            ft,
            depth,
        ),
{
    if ft.contains_key(id) && depth > 0 {
        lemma_bind_isolated(ft[id].params, args, 0, env1, env2, ft, Map::empty(), depth);
    }
}

/// All of `args` are literals.
pub open spec fn all_literals(args: Seq<ExprM>) -> bool {
    forall|k: int| 0 <= k < args.len() ==> (#[trigger] args[k]) is Number
}

/// A call with literal arguments has the same outcome whatever the caller's
/// variables are.
pub proof fn law_literal_call_isolation(
    id: Seq<char>,
    args: Seq<ExprM>,
    env1: EnvM,
    env2: EnvM,
    ft: FtM,
    depth: nat,
)
    requires
        all_literals(args),
    ensures
        sem_expr(ExprM::Call { id, args }, env1, ft, depth) == sem_expr(
            ExprM::Call { id, args },
            env2,
            ft,
            depth,
        ),
{
    assert forall|k: int, f: FtM| 0 <= k < args.len() implies #[trigger] sem_expr(args[k], env1, f, depth)
        == sem_expr(args[k], env2, f, depth) by {
        assert(args[k] is Number);
    }
    law_call_isolation(id, args, env1, env2, ft, depth);
}

/// Assigning a call's result changes the caller's environment only at the
/// assigned name.
pub proof fn law_call_leaves_caller_env(
    x: Seq<char>,
    id: Seq<char>,
    args: Seq<ExprM>,
    env: EnvM,
    ft: FtM,
    depth: nat,
)
    ensures
        match sem_expr(ExprM::Call { id, args }, env, ft, depth) {
            Ok((v, ft1)) => sem_stmt(StmtM::Assign(x, ExprM::Call { id, args }), env, ft, depth)
                == Ok::<(EnvM, FtM), Fault>((env.insert(x, v), ft1)),
            Err(f) => sem_stmt(StmtM::Assign(x, ExprM::Call { id, args }), env, ft, depth) == Err::<
                (EnvM, FtM),
                Fault,
            >(f),
        },
{
}

/// Reading a variable that the environment does not hold is an error.
pub proof fn law_unbound_variable(x: Seq<char>, env: EnvM, ft: FtM, depth: nat)
    requires
        !env.contains_key(x),
    ensures
        sem_expr(ExprM::Var(x), env, ft, depth) == Err::<(i32, FtM), Fault>(
            Fault::UnboundVariable(x),
        ),
{
}

/// Calling a function that the table does not hold is an error, before any
/// argument is evaluated.
pub proof fn law_unbound_function(id: Seq<char>, args: Seq<ExprM>, env: EnvM, ft: FtM, depth: nat)
    requires
        !ft.contains_key(id),
    ensures
        sem_expr(ExprM::Call { id, args }, env, ft, depth) == Err::<(i32, FtM), Fault>(
            Fault::UnboundFunction(id),
        ),
{
}

} // verus!
