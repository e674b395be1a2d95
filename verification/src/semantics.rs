//! The language's meaning, as a definitional interpreter over models.
//!
//! Evaluation is specified as recursive functions over [`Expr`]/[`Stmt`] and
//! the model types [`ValueS`] and [`EnvS`]. Where evaluation reaches the host
//! (a built-in call, an external command, command substitution, or floating
//! point), the outcome is [`EvalStep::External`]: from that point on the
//! result depends on the world, and the executable evaluator's contract
//! promises nothing further. Everywhere else the result is pinned exactly.
//!
//! A `fuel` bounds the depth of user-function calls; a call made with no fuel
//! left fails with a recursion-limit error.

use crate::arith::{div_trunc, rem_trunc};
use crate::ast::{AssignmentTarget, BinaryOperator, Expr, Stmt, UnaryOperator};
use crate::builtins::is_builtin_name;
use crate::errors::ErrS;
use crate::value::{
    envs_define, envs_lookup, envs_pop, envs_push, envs_set, truthy, type_name_of, EnvS, ValueS,
};
use vstd::prelude::*;

verus! {

/// The size of an expression: the measure that evaluation descends along
/// within one call depth.
pub open spec fn expr_size(e: Expr) -> nat
    decreases e,
{
    match e {
        Expr::Binary { left, right, .. } => 1 + expr_size(*left) + expr_size(*right),
        Expr::Unary { operand, .. } => 1 + expr_size(*operand),
        Expr::Call { args, .. } => 1 + exprs_size(args@),
        Expr::Array(elems) => 1 + exprs_size(elems@),
        Expr::MapLit(pairs) => 1 + pairs_size(pairs@),
        _ => 1,
    }
}

pub open spec fn exprs_size(es: Seq<Expr>) -> nat
    decreases es,
{
    if es.len() == 0 {
        0
    } else {
        1 + expr_size(es.first()) + exprs_size(es.drop_first())
    }
}

pub open spec fn pairs_size(ps: Seq<(Expr, Expr)>) -> nat
    decreases ps,
{
    if ps.len() == 0 {
        0
    } else {
        1 + expr_size(ps.first().0) + expr_size(ps.first().1) + pairs_size(ps.drop_first())
    }
}

/// The size of a statement. A function definition counts as a leaf: its body
/// is not entered until a call, which spends call depth.
pub open spec fn stmt_size(s: Stmt) -> nat
    decreases s,
{
    match s {
        Stmt::Expression(e) => 1 + expr_size(e),
        Stmt::Let { value, .. } => 1 + expr_size(value),
        Stmt::Const { value, .. } => 1 + expr_size(value),
        Stmt::Assignment { value, .. } => 1 + expr_size(value),
        Stmt::If { condition, then_block, else_block } => 1 + expr_size(condition) + stmts_size(
            then_block@,
        ) + match else_block {
            Option::Some(els) => stmts_size(els@),
            Option::None => 0,
        },
        Stmt::Return(opt) => match opt {
            Option::Some(e) => 1 + expr_size(e),
            Option::None => 1,
        },
        _ => 1,
    }
}

pub open spec fn stmts_size(ss: Seq<Stmt>) -> nat
    decreases ss,
{
    if ss.len() == 0 {
        0
    } else {
        1 + stmt_size(ss.first()) + stmts_size(ss.drop_first())
    }
}

/// The outcome of evaluating an expression.
pub enum EvalStep {
    /// Evaluation finished with this result, host untouched.
    Done(Result<ValueS, ErrS>),
    /// Evaluation reached the host; the result is the world's.
    External,
}

/// The outcome of evaluating a list of expressions.
pub enum ArgsStep {
    Done(Result<Seq<ValueS>, ErrS>),
    External,
}

/// The outcome of evaluating the entries of a map literal.
pub enum EntriesStep {
    Done(Result<Seq<(Seq<char>, ValueS)>, ErrS>),
    External,
}

/// Both operands numeric with at least one float: the host's arithmetic.
pub open spec fn float_pair(l: ValueS, r: ValueS) -> bool {
    match (l, r) {
        (ValueS::Float(_), ValueS::Float(_)) => true,
        (ValueS::Integer(_), ValueS::Float(_)) => true,
        (ValueS::Float(_), ValueS::Integer(_)) => true,
        _ => false,
    }
}

/// The operator table for two integers. Addition, subtraction and
/// multiplication wrap; division and remainder truncate toward zero and fail
/// on a zero divisor or on the one overflowing pair.
pub open spec fn int_binop(op: BinaryOperator, l: i64, r: i64) -> Result<ValueS, ErrS> {
    match op {
        BinaryOperator::Add => Result::Ok(
            ValueS::Integer(vstd::wrapping::i64_specs::wrapping_add(l, r)),
        ),
        BinaryOperator::Subtract => Result::Ok(
            ValueS::Integer(vstd::wrapping::i64_specs::wrapping_sub(l, r)),
        ),
        BinaryOperator::Multiply => Result::Ok(
            ValueS::Integer(vstd::wrapping::i64_specs::wrapping_mul(l, r)),
        ),
        BinaryOperator::Divide => {
            if r == 0 {
                Result::Err(ErrS::DivisionByZero)
            } else if l == i64::MIN && r == -1 {
                Result::Err(ErrS::IntegerOverflow)
            } else {
                Result::Ok(ValueS::Integer(div_trunc(l as int, r as int) as i64))
            }
        },
        BinaryOperator::Modulo => {
            if r == 0 {
                Result::Err(ErrS::DivisionByZero)
            } else if l == i64::MIN && r == -1 {
                Result::Err(ErrS::IntegerOverflow)
            } else {
                Result::Ok(ValueS::Integer(rem_trunc(l as int, r as int) as i64))
            }
        },
        BinaryOperator::Equal => Result::Ok(ValueS::Boolean(l == r)),
        BinaryOperator::NotEqual => Result::Ok(ValueS::Boolean(l != r)),
        BinaryOperator::Less => Result::Ok(ValueS::Boolean(l < r)),
        BinaryOperator::LessEqual => Result::Ok(ValueS::Boolean(l <= r)),
        BinaryOperator::Greater => Result::Ok(ValueS::Boolean(l > r)),
        BinaryOperator::GreaterEqual => Result::Ok(ValueS::Boolean(l >= r)),
        _ => Result::Err(
            ErrS::UnsupportedBinary { op, left: "int"@, right: "int"@ },
        ),
    }
}

/// The operator table over values of every type except the float pairs,
/// which belong to the host.
pub open spec fn binary_op_spec(op: BinaryOperator, l: ValueS, r: ValueS) -> Result<ValueS, ErrS>
    recommends
        !float_pair(l, r),
{
    match (l, r) {
        (ValueS::Integer(a), ValueS::Integer(b)) => int_binop(op, a, b),
        (ValueS::String(a), ValueS::String(b)) => match op {
            BinaryOperator::Add => Result::Ok(ValueS::String(a + b)),
            BinaryOperator::Equal => Result::Ok(ValueS::Boolean(a == b)),
            BinaryOperator::NotEqual => Result::Ok(ValueS::Boolean(a != b)),
            _ => Result::Err(
                ErrS::UnsupportedBinary { op, left: "string"@, right: "string"@ },
            ),
        },
        (ValueS::Boolean(a), ValueS::Boolean(b)) => match op {
            BinaryOperator::And => Result::Ok(ValueS::Boolean(a && b)),
            BinaryOperator::Or => Result::Ok(ValueS::Boolean(a || b)),
            BinaryOperator::Equal => Result::Ok(ValueS::Boolean(a == b)),
            BinaryOperator::NotEqual => Result::Ok(ValueS::Boolean(a != b)),
            _ => Result::Err(
                ErrS::UnsupportedBinary { op, left: "bool"@, right: "bool"@ },
            ),
        },
        (a, b) => match op {
            // Values of differing types are never equal
            BinaryOperator::Equal => Result::Ok(ValueS::Boolean(false)),
            BinaryOperator::NotEqual => Result::Ok(ValueS::Boolean(true)),
            _ => Result::Err(
                ErrS::UnsupportedBinary { op, left: type_name_of(a), right: type_name_of(b) },
            ),
        },
    }
}

/// The unary operator table. `!` negates truthiness; `-` is defined for
/// numbers, and on a float it flips the IEEE-754 sign bit.
pub open spec fn unary_op_spec(op: UnaryOperator, v: ValueS) -> Result<ValueS, ErrS> {
    match (op, v) {
        (UnaryOperator::Not, val) => Result::Ok(ValueS::Boolean(!truthy(val))),
        (UnaryOperator::Minus, ValueS::Integer(i)) => {
            if i == i64::MIN {
                Result::Err(ErrS::IntegerOverflow)
            } else {
                Result::Ok(ValueS::Integer((-i) as i64))
            }
        },
        (UnaryOperator::Minus, ValueS::Float(bits)) => Result::Ok(
            ValueS::Float(bits ^ 0x8000_0000_0000_0000),
        ),
        (o, val) => Result::Err(
            ErrS::UnsupportedUnary { op: o, operand: type_name_of(val) },
        ),
    }
}

/// A map with `k` bound to `v`: an existing entry for `k` is replaced,
/// otherwise the entry is appended.
pub open spec fn map_insert(
    m: Seq<(Seq<char>, ValueS)>,
    k: Seq<char>,
    v: ValueS,
) -> Seq<(Seq<char>, ValueS)>
    decreases m,
{
    if m.len() == 0 {
        seq![(k, v)]
    } else if m.first().0 == k {
        seq![(k, v)] + m.drop_first()
    } else {
        seq![m.first()] + map_insert(m.drop_first(), k, v)
    }
}

/// The value of an expression, given an environment and the remaining call
/// depth. Expressions do not change the environment.
pub open spec fn eval_expr(e: Expr, env: EnvS, fuel: nat) -> EvalStep
    decreases fuel, expr_size(e), 0int,
{
    match e {
        Expr::Integer(i) => EvalStep::Done(Result::Ok(ValueS::Integer(i))),
        Expr::Float(_) => EvalStep::External,
        Expr::String(s) => EvalStep::Done(Result::Ok(ValueS::String(s@))),
        Expr::Boolean(b) => EvalStep::Done(Result::Ok(ValueS::Boolean(b))),
        Expr::Nil => EvalStep::Done(Result::Ok(ValueS::Nil)),
        Expr::Identifier(name) => {
            if is_builtin_name(name@) {
                EvalStep::External
            } else {
                match envs_lookup(env, name@) {
                    Option::Some(p) => EvalStep::Done(Result::Ok(p.0)),
                    Option::None => EvalStep::External,
                }
            }
        },
        Expr::Binary { left, operator, right } => match eval_expr(*left, env, fuel) {
            EvalStep::Done(Result::Ok(lv)) => match eval_expr(*right, env, fuel) {
                EvalStep::Done(Result::Ok(rv)) => {
                    if float_pair(lv, rv) {
                        EvalStep::External
                    } else {
                        EvalStep::Done(binary_op_spec(operator, lv, rv))
                    }
                },
                EvalStep::Done(Result::Err(er)) => EvalStep::Done(Result::Err(er)),
                EvalStep::External => EvalStep::External,
            },
            EvalStep::Done(Result::Err(er)) => EvalStep::Done(Result::Err(er)),
            EvalStep::External => EvalStep::External,
        },
        Expr::Unary { operator, operand } => match eval_expr(*operand, env, fuel) {
            EvalStep::Done(Result::Ok(v)) => EvalStep::Done(unary_op_spec(operator, v)),
            EvalStep::Done(Result::Err(er)) => EvalStep::Done(Result::Err(er)),
            EvalStep::External => EvalStep::External,
        },
        Expr::Call { name, args } => match eval_args(args@, env, fuel) {
            ArgsStep::Done(Result::Ok(vals)) => {
                if is_builtin_name(name@) {
                    EvalStep::External
                } else {
                    match envs_lookup(env, name@) {
                        Option::Some((ValueS::Function { parameters, body, closure, .. }, _)) => {
                            if parameters.len() != vals.len() {
                                EvalStep::Done(
                                    Result::Err(
                                        ErrS::ArityMismatch {
                                            name: name@,
                                            expected: parameters.len() as int,
                                            actual: vals.len() as int,
                                        },
                                    ),
                                )
                            } else if fuel == 0 {
                                EvalStep::Done(Result::Err(ErrS::RecursionLimit))
                            } else {
                                let callee = bind_params(parameters, vals, envs_push(*closure));
                                eval_block(body, callee, (fuel - 1) as nat).0
                            }
                        },
                        Option::Some(_) => EvalStep::External,
                        Option::None => EvalStep::External,
                    }
                }
            },
            ArgsStep::Done(Result::Err(er)) => EvalStep::Done(Result::Err(er)),
            ArgsStep::External => EvalStep::External,
        },
        Expr::Array(elems) => match eval_args(elems@, env, fuel) {
            ArgsStep::Done(Result::Ok(vals)) => EvalStep::Done(Result::Ok(ValueS::Array(vals))),
            ArgsStep::Done(Result::Err(er)) => EvalStep::Done(Result::Err(er)),
            ArgsStep::External => EvalStep::External,
        },
        Expr::MapLit(pairs) => match eval_entries(pairs@, env, fuel, Seq::empty()) {
            EntriesStep::Done(Result::Ok(entries)) => EvalStep::Done(
                Result::Ok(ValueS::MapVal(entries)),
            ),
            EntriesStep::Done(Result::Err(er)) => EvalStep::Done(Result::Err(er)),
            EntriesStep::External => EvalStep::External,
        },
        Expr::Command(_) => EvalStep::External,
        _ => EvalStep::Done(Result::Err(ErrS::UnsupportedExpression)),
    }
}

/// The values of a list of expressions, evaluated left to right; the first
/// failure wins.
pub open spec fn eval_args(es: Seq<Expr>, env: EnvS, fuel: nat) -> ArgsStep
    decreases fuel, exprs_size(es), 1int,
{
    if es.len() == 0 {
        ArgsStep::Done(Result::Ok(Seq::empty()))
    } else {
        match eval_expr(es.first(), env, fuel) {
            EvalStep::Done(Result::Ok(v)) => match eval_args(es.drop_first(), env, fuel) {
                ArgsStep::Done(Result::Ok(rest)) => ArgsStep::Done(
                    Result::Ok(seq![v] + rest),
                ),
                ArgsStep::Done(Result::Err(er)) => ArgsStep::Done(Result::Err(er)),
                ArgsStep::External => ArgsStep::External,
            },
            EvalStep::Done(Result::Err(er)) => ArgsStep::Done(Result::Err(er)),
            EvalStep::External => ArgsStep::External,
        }
    }
}

/// The entries of a map literal, evaluated in order into `acc`. A key that
/// is not a string is rendered as text; only a key whose rendering depends on
/// the host (it holds a float) makes the literal host-dependent.
pub open spec fn eval_entries(
    ps: Seq<(Expr, Expr)>,
    env: EnvS,
    fuel: nat,
    acc: Seq<(Seq<char>, ValueS)>,
) -> EntriesStep
    decreases fuel, pairs_size(ps), 1int,
{
    if ps.len() == 0 {
        EntriesStep::Done(Result::Ok(acc))
    } else {
        match eval_expr(ps.first().0, env, fuel) {
            EvalStep::Done(Result::Ok(kv)) => match eval_expr(ps.first().1, env, fuel) {
                EvalStep::Done(Result::Ok(vv)) => match kv {
                    ValueS::String(k) => eval_entries(
                        ps.drop_first(),
                        env,
                        fuel,
                        map_insert(acc, k, vv),
                    ),
                    other => match crate::value::value_display(other) {
                        Option::Some(k) => eval_entries(
                            ps.drop_first(),
                            env,
                            fuel,
                            map_insert(acc, k, vv),
                        ),
                        Option::None => EntriesStep::External,
                    },
                },
                EvalStep::Done(Result::Err(er)) => EntriesStep::Done(Result::Err(er)),
                EvalStep::External => EntriesStep::External,
            },
            EvalStep::Done(Result::Err(er)) => EntriesStep::Done(Result::Err(er)),
            EvalStep::External => EntriesStep::External,
        }
    }
}

/// The callee's scope: each parameter bound by position.
pub open spec fn bind_params(params: Seq<crate::ast::Parameter>, vals: Seq<ValueS>, env: EnvS) -> EnvS
    decreases params,
{
    if params.len() == 0 || vals.len() == 0 {
        env
    } else {
        bind_params(
            params.drop_first(),
            vals.drop_first(),
            envs_define(env, params.first().name@, vals.first(), false),
        )
    }
}

/// The effect of one statement: a value (or failure) and the environment
/// afterwards.
pub open spec fn eval_stmt(s: Stmt, env: EnvS, fuel: nat) -> (EvalStep, EnvS)
    decreases fuel, stmt_size(s), 0int,
{
    match s {
        Stmt::Expression(e) => (eval_expr(e, env, fuel), env),
        Stmt::Let { name, value, .. } => match eval_expr(value, env, fuel) {
            EvalStep::Done(Result::Ok(v)) => (
                EvalStep::Done(Result::Ok(v)),
                envs_define(env, name@, v, false),
            ),
            step => (step, env),
        },
        Stmt::Const { name, value, .. } => match eval_expr(value, env, fuel) {
            EvalStep::Done(Result::Ok(v)) => (
                EvalStep::Done(Result::Ok(v)),
                envs_define(env, name@, v, true),
            ),
            step => (step, env),
        },
        // The assignment operator is parsed but not applied: `+=` assigns
        // like `=` does.
        Stmt::Assignment { target, value, .. } => match eval_expr(value, env, fuel) {
            EvalStep::Done(Result::Ok(v)) => match target {
                AssignmentTarget::Identifier(name) => match envs_set(env, name@, v) {
                    Result::Ok(m) => (EvalStep::Done(Result::Ok(v)), m),
                    Result::Err(er) => (EvalStep::Done(Result::Err(er)), env),
                },
                _ => (EvalStep::Done(Result::Err(ErrS::UnsupportedTarget)), env),
            },
            step => (step, env),
        },
        Stmt::If { condition, then_block, else_block } => match eval_expr(condition, env, fuel) {
            EvalStep::Done(Result::Ok(c)) => {
                if truthy(c) {
                    eval_block(then_block@, env, fuel)
                } else {
                    match else_block {
                        Option::Some(els) => eval_block(els@, env, fuel),
                        Option::None => (EvalStep::Done(Result::Ok(ValueS::Nil)), env),
                    }
                }
            },
            step => (step, env),
        },
        Stmt::Function { name, parameters, body, .. } => {
            let f = ValueS::Function {
                name: name@,
                parameters: parameters@,
                body: body@,
                closure: Box::new(env),
            };
            (EvalStep::Done(Result::Ok(f)), envs_define(env, name@, f, false))
        },
        Stmt::Return(opt) => match opt {
            Option::Some(e) => (eval_expr(e, env, fuel), env),
            Option::None => (EvalStep::Done(Result::Ok(ValueS::Nil)), env),
        },
        _ => (EvalStep::Done(Result::Err(ErrS::UnsupportedStatement)), env),
    }
}

/// Statements in order; the value is the last statement's, `nil` when there
/// are none, and the first failure stops the run.
pub open spec fn eval_stmts(ss: Seq<Stmt>, env: EnvS, fuel: nat) -> (EvalStep, EnvS)
    decreases fuel, stmts_size(ss), 1int,
{
    if ss.len() == 0 {
        (EvalStep::Done(Result::Ok(ValueS::Nil)), env)
    } else {
        match eval_stmt(ss.first(), env, fuel) {
            (EvalStep::Done(Result::Ok(v)), env1) => {
                if ss.len() == 1 {
                    (EvalStep::Done(Result::Ok(v)), env1)
                } else {
                    eval_stmts(ss.drop_first(), env1, fuel)
                }
            },
            (step, env1) => (step, env1),
        }
    }
}

/// A block: a fresh child scope for its statements, left again on exit,
/// whether the block finished or failed.
pub open spec fn eval_block(ss: Seq<Stmt>, env: EnvS, fuel: nat) -> (EvalStep, EnvS)
    decreases fuel, stmts_size(ss), 2int,
{
    let (step, env1) = eval_stmts(ss, envs_push(env), fuel);
    (step, envs_pop(env1))
}

/// A whole program: its statements in the given environment, no extra scope.
pub open spec fn eval_program(ss: Seq<Stmt>, env: EnvS, fuel: nat) -> (EvalStep, EnvS) {
    eval_stmts(ss, env, fuel)
}

} // verus!
