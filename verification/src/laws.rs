//! The language's laws: statements that hold of every program, proved once
//! over the definitional semantics. Each is phrased over the public model
//! functions that the evaluator's contracts use, so callers can carry these
//! facts across [`crate::interp::Interpreter::interpret`].

use crate::ast::{Expr, Stmt};
use crate::builtins::is_builtin_name;
use crate::errors::ErrS;
use crate::semantics::{
    eval_args, eval_block, eval_expr, eval_stmt, ArgsStep, EvalStep,
};
use crate::value::{
    envs_define, envs_lookup, envs_pop, envs_push, envs_set, scope_lookup, scope_update, truthy,
    EnvS, ValueS,
};
use vstd::prelude::*;

verus! {

proof fn lemma_scope_update_lookup_same(
    bs: Seq<(Seq<char>, ValueS, bool)>,
    n: Seq<char>,
    v: ValueS,
)
    requires
        scope_lookup(bs, n) is Some,
    ensures
        scope_lookup(scope_update(bs, n, v), n) matches Some(q) && q.0 == v && q.1
            == scope_lookup(bs, n)->Some_0.1,
    decreases bs,
{
    if bs.len() > 0 && bs.last().0 != n {
        lemma_scope_update_lookup_same(bs.drop_last(), n, v);
        assert(scope_update(bs, n, v).last() == bs.last());
        assert(scope_update(bs, n, v).drop_last() =~= scope_update(bs.drop_last(), n, v));
    }
}

proof fn lemma_scope_update_lookup_other(
    bs: Seq<(Seq<char>, ValueS, bool)>,
    x: Seq<char>,
    v: ValueS,
    n: Seq<char>,
)
    requires
        n != x,
    ensures
        scope_lookup(scope_update(bs, x, v), n) == scope_lookup(bs, n),
    decreases bs,
{
    if bs.len() > 0 {
        if bs.last().0 == x {
            assert(scope_update(bs, x, v) =~= bs.drop_last().push((x, v, bs.last().2)));
            assert(scope_update(bs, x, v).last() == (x, v, bs.last().2));
            assert(scope_update(bs, x, v).drop_last() =~= bs.drop_last());
        } else {
            lemma_scope_update_lookup_other(bs.drop_last(), x, v, n);
            assert(scope_update(bs, x, v).last() == bs.last());
            assert(scope_update(bs, x, v).drop_last() =~= scope_update(bs.drop_last(), x, v));
        }
    }
}

/// Assigning to a name that is bound and not constant succeeds, and the name
/// is then bound to the assigned value, with its flag kept.
pub proof fn lemma_set_then_lookup(env: EnvS, n: Seq<char>, v: ValueS)
    requires
        envs_lookup(env, n) matches Some(p) && !p.1,
    ensures
        envs_set(env, n, v) matches Ok(m) && envs_lookup(m, n) == Option::Some((v, false)),
    decreases env,
{
    match scope_lookup(env.bindings, n) {
        Option::Some(p) => {
            lemma_scope_update_lookup_same(env.bindings, n, v);
        },
        Option::None => {
            match env.parent {
                Option::Some(par) => {
                    lemma_set_then_lookup(*par, n, v);
                },
                Option::None => {},
            }
        },
    }
}

/// Assigning to `x` does not move any other name's binding.
pub proof fn lemma_set_preserves_others(env: EnvS, x: Seq<char>, v: ValueS, n: Seq<char>)
    requires
        n != x,
    ensures
        envs_set(env, x, v) matches Ok(m) ==> envs_lookup(m, n) == envs_lookup(env, n),
    decreases env,
{
    match scope_lookup(env.bindings, x) {
        Option::Some(p) => {
            if !p.1 {
                lemma_scope_update_lookup_other(env.bindings, x, v, n);
            }
        },
        Option::None => {
            match env.parent {
                Option::Some(par) => {
                    lemma_set_preserves_others(*par, x, v, n);
                },
                Option::None => {},
            }
        },
    }
}

/// Scoping, first half: an assignment made inside a nested scope reaches the
/// binding in the enclosing scope, and leaving the scope keeps it — the outer
/// variable holds the new value after the block.
pub proof fn lemma_block_assignment_escapes(env: EnvS, n: Seq<char>, v: ValueS)
    requires
        envs_lookup(env, n) matches Some(p) && !p.1,
    ensures
        envs_set(envs_push(env), n, v) matches Ok(m) && envs_lookup(envs_pop(m), n)
            == Option::Some((v, false)),
{
    lemma_set_then_lookup(env, n, v);
    assert(scope_lookup(envs_push(env).bindings, n) is None);
}

/// Scoping, second half: a declaration made inside a nested scope is dropped
/// with the scope — the enclosing environment is exactly what it was.
pub proof fn lemma_block_declaration_is_local(env: EnvS, n: Seq<char>, v: ValueS, constant: bool)
    ensures
        envs_pop(envs_define(envs_push(env), n, v, constant)) == env,
{
}

/// Constants, first half: assigning to a name declared constant fails with an
/// error naming it, whatever value it held and whatever is assigned.
pub proof fn lemma_const_assignment_fails(env: EnvS, n: Seq<char>, v: ValueS, w: ValueS)
    ensures
        envs_set(envs_define(env, n, v, true), n, w) == Result::<EnvS, ErrS>::Err(
            ErrS::ConstAssignment(n),
        ),
{
    let bs = envs_define(env, n, v, true).bindings;
    assert(bs.last() == (n, v, true));
}

/// Constants, second half: assigning to a name declared with `let` succeeds,
/// and the name then holds the assigned value.
pub proof fn lemma_let_reassignment_succeeds(env: EnvS, n: Seq<char>, v: ValueS, w: ValueS)
    ensures
        envs_set(envs_define(env, n, v, false), n, w) matches Ok(m) && envs_lookup(m, n)
            == Option::Some((w, false)),
{
    let e1 = envs_define(env, n, v, false);
    assert(e1.bindings.last() == (n, v, false));
    lemma_set_then_lookup(e1, n, w);
}

/// Closures, first half: a function definition captures the environment at
/// its definition point — the whole chain, as a value — and binds the
/// function's name to that closure.
pub proof fn lemma_closure_captures_definition_scope(s: Stmt, env: EnvS, fuel: nat)
    requires
        s is Function,
    ensures
        ({
            let (step, env1) = eval_stmt(s, env, fuel);
            match s {
                Stmt::Function { name, parameters, body, .. } => {
                    let f = ValueS::Function {
                        name: name@,
                        parameters: parameters@,
                        body: body@,
                        closure: Box::new(env),
                    };
                    step == EvalStep::Done(Result::<ValueS, ErrS>::Ok(f)) && env1 == envs_define(
                        env,
                        name@,
                        f,
                        false,
                    )
                },
                _ => true,
            }
        }),
{
}

/// Closures, second half: mutating an outer variable after the definition
/// builds a new environment but leaves the captured snapshot untouched — the
/// function still closes over the bindings present at its definition.
pub proof fn lemma_closure_snapshot_survives_mutation(
    s: Stmt,
    env: EnvS,
    fuel: nat,
    x: Seq<char>,
    w: ValueS,
)
    requires
        s matches Stmt::Function { name, .. } && name@ != x,
    ensures
        ({
            let (step, env1) = eval_stmt(s, env, fuel);
            match s {
                Stmt::Function { name, parameters, body, .. } => {
                    let f = ValueS::Function {
                        name: name@,
                        parameters: parameters@,
                        body: body@,
                        closure: Box::new(env),
                    };
                    envs_set(env1, x, w) matches Ok(env2) ==> envs_lookup(env2, name@)
                        == Option::Some((f, false))
                },
                _ => true,
            }
        }),
{
    match s {
        Stmt::Function { name, parameters, body, .. } => {
            let f = ValueS::Function {
                name: name@,
                parameters: parameters@,
                body: body@,
                closure: Box::new(env),
            };
            let env1 = envs_define(env, name@, f, false);
            assert(env1.bindings.last() == (name@, f, false));
            lemma_set_preserves_others(env1, x, w, name@);
        },
        _ => {},
    }
}

/// Function arity: calling a user-defined function with the wrong number of
/// arguments fails with an error stating the expected and the actual count.
pub proof fn lemma_call_arity_mismatch(e: Expr, env: EnvS, fuel: nat)
    requires
        e matches Expr::Call { name, args } && !is_builtin_name(name@) && (envs_lookup(env, name@)
            matches Some(p) && p.0 matches ValueS::Function { parameters, .. } && (eval_args(
            args@,
            env,
            fuel,
        ) matches ArgsStep::Done(Result::Ok(vals)) && parameters.len() != vals.len())),
    ensures
        ({
            match e {
                Expr::Call { name, args } => {
                    let vals = eval_args(args@, env, fuel)->Done_0->Ok_0;
                    let parameters = envs_lookup(env, name@)->Some_0.0->parameters;
                    eval_expr(e, env, fuel) == EvalStep::Done(
                        Result::<ValueS, ErrS>::Err(
                            ErrS::ArityMismatch {
                                name: name@,
                                expected: parameters.len() as int,
                                actual: vals.len() as int,
                            },
                        ),
                    )
                },
                _ => true,
            }
        }),
{
}

/// Truthiness drives conditionals: when the condition evaluates on its own,
/// `if` runs the then-block exactly when the condition's value is truthy, and
/// otherwise the else-block or nothing.
pub proof fn lemma_if_selects_by_truthiness(s: Stmt, env: EnvS, fuel: nat)
    requires
        s matches Stmt::If { condition, .. } && eval_expr(condition, env, fuel) matches EvalStep::Done(
            Result::Ok(c),
        ),
    ensures
        ({
            match s {
                Stmt::If { condition, then_block, else_block } => {
                    let c = eval_expr(condition, env, fuel)->Done_0->Ok_0;
                    eval_stmt(s, env, fuel) == if truthy(c) {
                        eval_block(then_block@, env, fuel)
                    } else {
                        match else_block {
                            Option::Some(els) => eval_block(els@, env, fuel),
                            Option::None => (
                                EvalStep::Done(Result::<ValueS, ErrS>::Ok(ValueS::Nil)),
                                env,
                            ),
                        }
                    }
                },
                _ => true,
            }
        }),
{
}

} // verus!
