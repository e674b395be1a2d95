//! The tree-walking evaluator.
//!
//! Every function here is proved against the definitional interpreter in
//! [`crate::semantics`]: wherever that specification says evaluation finishes
//! on its own (`EvalStep::Done`), the executable evaluator returns exactly the
//! specified value or failure and leaves exactly the specified environment.
//! Where the specification says the host takes over (`EvalStep::External`),
//! the result is the host's.
//!
//! The [`Host`] trait is the evaluator's only door to the world: built-in
//! calls, external commands, command substitution, and floating-point
//! arithmetic all go through it. Nothing is assumed about what a host
//! returns.

use crate::ast::{BinaryOperator, Expr, Program, Stmt};
use crate::ast::AssignmentTarget;
use crate::ast::Parameter;
use crate::ast::UnaryOperator;
use crate::builtins::{is_builtin, register_builtins, with_builtins};
use crate::errors::{err_model, ErrS, RuntimeError};
use crate::semantics::{
    binary_op_spec, bind_params, eval_args, eval_block, eval_entries, eval_expr, eval_program,
    eval_stmt, eval_stmts, expr_size, exprs_size, float_pair, map_insert, pairs_size, stmt_size,
    stmts_size, unary_op_spec, ArgsStep, EntriesStep, EvalStep,
};
use crate::strutil::{i64_to_string, rc_clone};
use crate::value::{
    entries_display, env_model, lemma_pair_models, lemma_value_models, pair_models, value_display,
    value_model, value_models, values_display, EnvS, Environment, Value, ValueS,
};
use vstd::prelude::*;
use vstd::string::StrSliceExecFns;
use vstd::string::StringExecFns;

verus! {

/// What the world does for the evaluator. The application implements this;
/// the library assumes nothing about any of it.
pub trait Host {
    /// Calls the built-in function `name` with `args`.
    fn call_builtin(&mut self, name: &str, args: &Vec<Value>) -> Result<Value, RuntimeError>;

    /// Runs `command` as an external program with the given argument values.
    fn run_external(&mut self, command: &str, args: &Vec<Value>) -> Result<Value, RuntimeError>;

    /// Runs `command` in a subshell and captures its trimmed output.
    fn run_substitution(&mut self, command: &str) -> Result<Value, RuntimeError>;

    /// The float value a numeric literal with a decimal point denotes.
    fn float_literal(&mut self, text: &str) -> Result<Value, RuntimeError>;

    /// Arithmetic where at least one operand is a float.
    fn float_binary(&mut self, op: BinaryOperator, left: Value, right: Value) -> Result<
        Value,
        RuntimeError,
    >;

    /// The textual rendering of a float value.
    fn float_display(&mut self, bits: u64) -> String;
}

/// A host that provides nothing: every request fails. Evaluation under it is
/// exactly the pure part of the language.
pub struct NullHost {}

impl Host for NullHost {
    fn call_builtin(&mut self, name: &str, args: &Vec<Value>) -> Result<Value, RuntimeError> {
        Result::Err(RuntimeError::HostError(String::from_str("no host: built-ins are unavailable")))
    }

    fn run_external(&mut self, command: &str, args: &Vec<Value>) -> Result<Value, RuntimeError> {
        Result::Err(
            RuntimeError::HostError(String::from_str("no host: external commands are unavailable")),
        )
    }

    fn run_substitution(&mut self, command: &str) -> Result<Value, RuntimeError> {
        Result::Err(
            RuntimeError::HostError(
                String::from_str("no host: command substitution is unavailable"),
            ),
        )
    }

    fn float_literal(&mut self, text: &str) -> Result<Value, RuntimeError> {
        Result::Err(RuntimeError::HostError(String::from_str("no host: floats are unavailable")))
    }

    fn float_binary(&mut self, op: BinaryOperator, left: Value, right: Value) -> Result<
        Value,
        RuntimeError,
    > {
        Result::Err(RuntimeError::HostError(String::from_str("no host: floats are unavailable")))
    }

    fn float_display(&mut self, bits: u64) -> String {
        String::from_str("float")
    }
}

/// The executable result carries exactly the specified result: same value
/// model on success, same failure model on failure.
pub open spec fn result_corresponds(r: Result<Value, RuntimeError>, res: Result<ValueS, ErrS>) -> bool {
    match (r, res) {
        (Result::Ok(v), Result::Ok(vs)) => value_model(v) == vs,
        (Result::Err(e), Result::Err(es)) => err_model(e) == es,
        _ => false,
    }
}

/// How deep user-function calls may nest before evaluation fails with a
/// recursion-limit error.
pub const CALL_DEPTH_LIMIT: u64 = 1000;

/// Whether both operands are numbers with at least one float.
fn is_float_pair(l: &Value, r: &Value) -> (b: bool)
    ensures
        b == float_pair(value_model(*l), value_model(*r)),
{
    match (l, r) {
        (Value::Float(_), Value::Float(_)) => true,
        (Value::Integer(_), Value::Float(_)) => true,
        (Value::Float(_), Value::Integer(_)) => true,
        _ => false,
    }
}

/// The operator table for every pair of values except the float pairs,
/// which the caller routes to the host.
fn apply_binary_operator(op: BinaryOperator, left: Value, right: Value) -> (r: Result<
    Value,
    RuntimeError,
>)
    requires
        !float_pair(value_model(left), value_model(right)),
    ensures
        result_corresponds(r, binary_op_spec(op, value_model(left), value_model(right))),
{
    match (left, right) {
        (Value::Integer(l), Value::Integer(rv)) => match op {
            BinaryOperator::Add => Result::Ok(Value::Integer(l.wrapping_add(rv))),
            BinaryOperator::Subtract => Result::Ok(Value::Integer(l.wrapping_sub(rv))),
            BinaryOperator::Multiply => Result::Ok(Value::Integer(l.wrapping_mul(rv))),
            BinaryOperator::Divide => {
                if rv == 0 {
                    Result::Err(RuntimeError::DivisionByZero)
                } else if l == i64::MIN && rv == -1 {
                    Result::Err(RuntimeError::IntegerOverflow)
                } else {
                    Result::Ok(Value::Integer(crate::arith::div_values(l, rv)))
                }
            },
            BinaryOperator::Modulo => {
                if rv == 0 {
                    Result::Err(RuntimeError::DivisionByZero)
                } else if l == i64::MIN && rv == -1 {
                    Result::Err(RuntimeError::IntegerOverflow)
                } else {
                    Result::Ok(Value::Integer(crate::arith::rem_values(l, rv)))
                }
            },
            BinaryOperator::Equal => Result::Ok(Value::Boolean(l == rv)),
            BinaryOperator::NotEqual => Result::Ok(Value::Boolean(l != rv)),
            BinaryOperator::Less => Result::Ok(Value::Boolean(l < rv)),
            BinaryOperator::LessEqual => Result::Ok(Value::Boolean(l <= rv)),
            BinaryOperator::Greater => Result::Ok(Value::Boolean(l > rv)),
            BinaryOperator::GreaterEqual => Result::Ok(Value::Boolean(l >= rv)),
            _ => Result::Err(
                RuntimeError::UnsupportedBinary {
                    op,
                    left: String::from_str("int"),
                    right: String::from_str("int"),
                },
            ),
        },
        (Value::String(l), Value::String(rv)) => match op {
            BinaryOperator::Add => Result::Ok(Value::String(l.concat(rv.as_str()))),
            BinaryOperator::Equal => Result::Ok(Value::Boolean(l == rv)),
            BinaryOperator::NotEqual => Result::Ok(Value::Boolean(!(l == rv))),
            _ => Result::Err(
                RuntimeError::UnsupportedBinary {
                    op,
                    left: String::from_str("string"),
                    right: String::from_str("string"),
                },
            ),
        },
        (Value::Boolean(l), Value::Boolean(rv)) => match op {
            BinaryOperator::And => Result::Ok(Value::Boolean(l && rv)),
            BinaryOperator::Or => Result::Ok(Value::Boolean(l || rv)),
            BinaryOperator::Equal => Result::Ok(Value::Boolean(l == rv)),
            BinaryOperator::NotEqual => Result::Ok(Value::Boolean(l != rv)),
            _ => Result::Err(
                RuntimeError::UnsupportedBinary {
                    op,
                    left: String::from_str("bool"),
                    right: String::from_str("bool"),
                },
            ),
        },
        (l, rv) => match op {
            // Values of differing types are never equal
            BinaryOperator::Equal => Result::Ok(Value::Boolean(false)),
            BinaryOperator::NotEqual => Result::Ok(Value::Boolean(true)),
            _ => {
                let ln = String::from_str(l.type_label());
                let rn = String::from_str(rv.type_label());
                Result::Err(RuntimeError::UnsupportedBinary { op, left: ln, right: rn })
            },
        },
    }
}

/// The unary operator table.
fn apply_unary_operator(op: UnaryOperator, operand: Value) -> (r: Result<Value, RuntimeError>)
    ensures
        result_corresponds(r, unary_op_spec(op, value_model(operand))),
{
    match (op, operand) {
        (UnaryOperator::Not, val) => Result::Ok(Value::Boolean(!val.is_truthy())),
        (UnaryOperator::Minus, Value::Integer(i)) => {
            if i == i64::MIN {
                Result::Err(RuntimeError::IntegerOverflow)
            } else {
                Result::Ok(Value::Integer(-i))
            }
        },
        // Negating a float flips the IEEE-754 sign bit, exactly
        (UnaryOperator::Minus, Value::Float(bits)) => Result::Ok(
            Value::Float(bits ^ 0x8000_0000_0000_0000),
        ),
        (o, val) => {
            let tn = String::from_str(val.type_label());
            Result::Err(RuntimeError::UnsupportedUnary { op: o, operand: tn })
        },
    }
}

proof fn lemma_map_insert_at(ms: Seq<(Seq<char>, ValueS)>, k: Seq<char>, v: ValueS, j: int)
    requires
        0 <= j < ms.len(),
        ms[j].0 == k,
        forall|l: int| 0 <= l < j ==> #[trigger] ms[l].0 != k,
    ensures
        map_insert(ms, k, v) =~= ms.update(j, (k, v)),
    decreases ms,
{
    if j == 0 {
        assert(map_insert(ms, k, v) =~= ms.update(0, (k, v)));
    } else {
        lemma_map_insert_at(ms.drop_first(), k, v, j - 1);
        assert(ms.drop_first().update(j - 1, (k, v)) =~= ms.update(j, (k, v)).drop_first());
        assert(map_insert(ms, k, v) =~= ms.update(j, (k, v)));
    }
}

proof fn lemma_map_insert_none(ms: Seq<(Seq<char>, ValueS)>, k: Seq<char>, v: ValueS)
    requires
        forall|l: int| 0 <= l < ms.len() ==> #[trigger] ms[l].0 != k,
    ensures
        map_insert(ms, k, v) =~= ms.push((k, v)),
    decreases ms,
{
    if ms.len() > 0 {
        lemma_map_insert_none(ms.drop_first(), k, v);
        assert(ms.drop_first().push((k, v)) =~= ms.push((k, v)).drop_first());
        assert(map_insert(ms, k, v) =~= ms.push((k, v)));
    }
}

/// The index of the first entry for `k`, if the map has one.
fn find_first_key(m: &Vec<(String, Value)>, k: &str) -> (r: Option<usize>)
    ensures
        match r {
            Option::Some(j) => j < m@.len() && m@[j as int].0@ == k@ && forall|l: int|
                0 <= l < j ==> #[trigger] m@[l].0@ != k@,
            Option::None => forall|l: int| 0 <= l < m@.len() ==> #[trigger] m@[l].0@ != k@,
        },
{
    let mut j: usize = 0;
    while j < m.len()
        invariant
            j <= m@.len(),
            forall|l: int| 0 <= l < j ==> #[trigger] m@[l].0@ != k@,
        decreases m@.len() - j,
    {
        if crate::strutil::str_eq(m[j].0.as_str(), k) {
            return Option::Some(j);
        }
        j += 1;
    }
    Option::None
}

/// Binds `k` in a map being built: an existing entry is replaced, a new one
/// is appended.
fn map_insert_exec(m: Vec<(String, Value)>, k: String, v: Value) -> (r: Vec<(String, Value)>)
    ensures
        pair_models(r@) == map_insert(pair_models(m@), k@, value_model(v)),
{
    proof {
        lemma_pair_models(m@);
    }
    let ghost ms = pair_models(m@);
    let mut m = m;
    match find_first_key(&m, k.as_str()) {
        Option::Some(j) => {
            proof {
                lemma_map_insert_at(ms, k@, value_model(v), j as int);
            }
            m.set(j, (k, v));
            proof {
                lemma_pair_models(m@);
                assert(pair_models(m@) =~= ms.update(j as int, (k@, value_model(v))));
            }
            m
        },
        Option::None => {
            proof {
                lemma_map_insert_none(ms, k@, value_model(v));
            }
            m.push((k, v));
            proof {
                lemma_pair_models(m@);
                assert(pair_models(m@) =~= ms.push((k@, value_model(v))));
            }
            m
        },
    }
}

/// Evaluates one expression. Expressions never change the environment.
fn evaluate_expression<H: Host>(host: &mut H, env: &Environment, e: &Expr, fuel: u64) -> (r:
    Result<Value, RuntimeError>)
    ensures
        eval_expr(*e, env_model(*env), fuel as nat) matches EvalStep::Done(res)
            ==> result_corresponds(r, res),
    decreases fuel, expr_size(*e), 3int,
{
    let ghost envs = env_model(*env);
    match e {
        Expr::Integer(i) => Result::Ok(Value::Integer(*i)),
        Expr::Float(text) => host.float_literal(text.as_str()),
        Expr::String(s) => Result::Ok(Value::String(s.clone())),
        Expr::Boolean(b) => Result::Ok(Value::Boolean(*b)),
        Expr::Nil => Result::Ok(Value::Nil),
        Expr::Identifier(name) => {
            if is_builtin(name.as_str()) {
                let no_args: Vec<Value> = Vec::new();
                host.call_builtin(name.as_str(), &no_args)
            } else {
                match env.get(name.as_str()) {
                    Option::Some(v) => Result::Ok(v),
                    Option::None => {
                        let no_args: Vec<Value> = Vec::new();
                        host.run_external(name.as_str(), &no_args)
                    },
                }
            }
        },
        Expr::Binary { left, operator, right } => {
            let lv = match evaluate_expression(host, env, left, fuel) {
                Result::Ok(v) => v,
                Result::Err(er) => {
                    return Result::Err(er);
                },
            };
            let rv = match evaluate_expression(host, env, right, fuel) {
                Result::Ok(v) => v,
                Result::Err(er) => {
                    return Result::Err(er);
                },
            };
            if is_float_pair(&lv, &rv) {
                host.float_binary(*operator, lv, rv)
            } else {
                apply_binary_operator(*operator, lv, rv)
            }
        },
        Expr::Unary { operator, operand } => {
            let v = match evaluate_expression(host, env, operand, fuel) {
                Result::Ok(v) => v,
                Result::Err(er) => {
                    return Result::Err(er);
                },
            };
            apply_unary_operator(*operator, v)
        },
        Expr::Call { name, args } => {
            proof {
                assert(exprs_size(args@.skip(0)) <= expr_size(*e)) by {
                    assert(args@.skip(0) =~= args@);
                }
            }
            let vals = match evaluate_arguments(host, env, args, 0, Vec::new(), fuel) {
                Result::Ok(vs) => vs,
                Result::Err(er) => {
                    proof {
                        assert(eval_args(args@, envs, fuel as nat) == eval_args(
                            args@.skip(0),
                            envs,
                            fuel as nat,
                        )) by {
                            assert(args@.skip(0) =~= args@);
                        }
                    }
                    return Result::Err(er);
                },
            };
            proof {
                assert(eval_args(args@, envs, fuel as nat) == eval_args(
                    args@.skip(0),
                    envs,
                    fuel as nat,
                )) by {
                    assert(args@.skip(0) =~= args@);
                }
                assert(value_models(Seq::<Value>::empty()) =~= Seq::<ValueS>::empty());
                lemma_value_models(vals@);
                match eval_args(args@, envs, fuel as nat) {
                    ArgsStep::Done(Result::Ok(vs)) => {
                        assert(Seq::<ValueS>::empty() + vs =~= vs);
                        assert(value_models(vals@) == vs);
                    },
                    _ => {},
                }
            }
            if is_builtin(name.as_str()) {
                host.call_builtin(name.as_str(), &vals)
            } else {
                match env.get(name.as_str()) {
                    Option::Some(Value::Function { parameters, body, closure, .. }) => {
                        let arity = (&*parameters).len();
                        if arity != vals.len() {
                            return Result::Err(
                                RuntimeError::ArityMismatch {
                                    name: name.clone(),
                                    expected: arity,
                                    actual: vals.len(),
                                },
                            );
                        }
                        if fuel == 0 {
                            return Result::Err(RuntimeError::RecursionLimit);
                        }
                        let child = Environment::new_with_parent(*closure);
                        proof {
                            lemma_value_models(vals@);
                            assert(parameters@.skip(0) =~= parameters@);
                            assert(value_models(vals@).skip(0) =~= value_models(vals@));
                        }
                        let bound = bind_parameters(child, &parameters, &vals, 0);
                        // the callee's scope chain ends with the call; the caller's
                        // environment was never handed in
                        let (_, r) = execute_block(host, bound, &*body, fuel - 1);
                        r
                    },
                    Option::Some(_) => host.run_external(name.as_str(), &vals),
                    Option::None => host.run_external(name.as_str(), &vals),
                }
            }
        },
        Expr::Array(elems) => {
            proof {
                assert(exprs_size(elems@.skip(0)) <= expr_size(*e)) by {
                    assert(elems@.skip(0) =~= elems@);
                }
            }
            match evaluate_arguments(host, env, elems, 0, Vec::new(), fuel) {
                Result::Ok(vs) => {
                    proof {
                        assert(eval_args(elems@, envs, fuel as nat) == eval_args(
                            elems@.skip(0),
                            envs,
                            fuel as nat,
                        )) by {
                            assert(elems@.skip(0) =~= elems@);
                        }
                        assert(value_models(Seq::<Value>::empty()) =~= Seq::<ValueS>::empty());
                        match eval_args(elems@, envs, fuel as nat) {
                            ArgsStep::Done(Result::Ok(vls)) => {
                                assert(Seq::<ValueS>::empty() + vls =~= vls);
                            },
                            _ => {},
                        }
                    }
                    Result::Ok(Value::Array(vs))
                },
                Result::Err(er) => {
                    proof {
                        assert(eval_args(elems@, envs, fuel as nat) == eval_args(
                            elems@.skip(0),
                            envs,
                            fuel as nat,
                        )) by {
                            assert(elems@.skip(0) =~= elems@);
                        }
                    }
                    Result::Err(er)
                },
            }
        },
        Expr::MapLit(pairs) => {
            proof {
                assert(pairs_size(pairs@.skip(0)) <= expr_size(*e)) by {
                    assert(pairs@.skip(0) =~= pairs@);
                }
            }
            match evaluate_entries(host, env, pairs, 0, Vec::new(), fuel) {
                Result::Ok(entries) => {
                    proof {
                        assert(eval_entries(pairs@, envs, fuel as nat, Seq::empty())
                            == eval_entries(
                            pairs@.skip(0),
                            envs,
                            fuel as nat,
                            pair_models(Seq::<(String, Value)>::empty()),
                        )) by {
                            assert(pairs@.skip(0) =~= pairs@);
                            assert(pair_models(Seq::<(String, Value)>::empty())
                                =~= Seq::<(Seq<char>, ValueS)>::empty());
                        }
                    }
                    Result::Ok(Value::MapVal(entries))
                },
                Result::Err(er) => {
                    proof {
                        assert(eval_entries(pairs@, envs, fuel as nat, Seq::empty())
                            == eval_entries(
                            pairs@.skip(0),
                            envs,
                            fuel as nat,
                            pair_models(Seq::<(String, Value)>::empty()),
                        )) by {
                            assert(pairs@.skip(0) =~= pairs@);
                            assert(pair_models(Seq::<(String, Value)>::empty())
                                =~= Seq::<(Seq<char>, ValueS)>::empty());
                        }
                    }
                    Result::Err(er)
                },
            }
        },
        Expr::Command(cmd) => host.run_substitution(cmd.as_str()),
        _ => Result::Err(RuntimeError::UnsupportedExpression),
    }
}

/// Evaluates `es[i..]` left to right onto the values already in `acc`.
fn evaluate_arguments<H: Host>(
    host: &mut H,
    env: &Environment,
    es: &Vec<Expr>,
    i: usize,
    acc: Vec<Value>,
    fuel: u64,
) -> (r: Result<Vec<Value>, RuntimeError>)
    requires
        i <= es@.len(),
    ensures
        eval_args(es@.skip(i as int), env_model(*env), fuel as nat) matches ArgsStep::Done(res)
            ==> (match (r, res) {
            (Result::Ok(vs), Result::Ok(vals)) => value_models(vs@) == value_models(acc@) + vals,
            (Result::Err(e), Result::Err(es2)) => err_model(e) == es2,
            _ => false,
        }),
    decreases fuel, exprs_size(es@.skip(i as int)), 2int,
{
    let ghost suffix = es@.skip(i as int);
    let ghost envs = env_model(*env);
    if i == es.len() {
        proof {
            assert(suffix =~= Seq::<Expr>::empty());
            assert(value_models(acc@) + Seq::<ValueS>::empty() =~= value_models(acc@));
        }
        Result::Ok(acc)
    } else {
        proof {
            assert(suffix.first() == es@[i as int]);
            assert(suffix.drop_first() =~= es@.skip(i as int + 1));
        }
        match evaluate_expression(host, env, &es[i], fuel) {
            Result::Ok(v) => {
                let ghost vm = value_model(v);
                let mut acc2 = acc;
                acc2.push(v);
                proof {
                    assert(acc2@.drop_last() =~= acc@);
                    assert(value_models(acc2@) =~= value_models(acc@).push(vm));
                }
                let r = evaluate_arguments(host, env, es, i + 1, acc2, fuel);
                proof {
                    match eval_args(suffix.drop_first(), envs, fuel as nat) {
                        ArgsStep::Done(Result::Ok(rest)) => {
                            assert((value_models(acc@).push(vm)) + rest =~= value_models(acc@) + (
                            seq![vm] + rest));
                        },
                        _ => {},
                    }
                }
                r
            },
            Result::Err(er) => Result::Err(er),
        }
    }
}

/// Evaluates the entries of a map literal in order, building the map in
/// `acc`. A key that is not already a string is rendered by the host.
fn evaluate_entries<H: Host>(
    host: &mut H,
    env: &Environment,
    ps: &Vec<(Expr, Expr)>,
    i: usize,
    acc: Vec<(String, Value)>,
    fuel: u64,
) -> (r: Result<Vec<(String, Value)>, RuntimeError>)
    requires
        i <= ps@.len(),
    ensures
        eval_entries(ps@.skip(i as int), env_model(*env), fuel as nat, pair_models(acc@))
            matches EntriesStep::Done(res) ==> (match (r, res) {
            (Result::Ok(m), Result::Ok(entries)) => pair_models(m@) == entries,
            (Result::Err(e), Result::Err(es2)) => err_model(e) == es2,
            _ => false,
        }),
    decreases fuel, pairs_size(ps@.skip(i as int)), 2int,
{
    let ghost suffix = ps@.skip(i as int);
    let ghost envs = env_model(*env);
    if i == ps.len() {
        proof {
            assert(suffix =~= Seq::<(Expr, Expr)>::empty());
        }
        Result::Ok(acc)
    } else {
        proof {
            assert(suffix.first() == ps@[i as int]);
            assert(suffix.drop_first() =~= ps@.skip(i as int + 1));
        }
        let kv = match evaluate_expression(host, env, &ps[i].0, fuel) {
            Result::Ok(v) => v,
            Result::Err(er) => {
                return Result::Err(er);
            },
        };
        let vv = match evaluate_expression(host, env, &ps[i].1, fuel) {
            Result::Ok(v) => v,
            Result::Err(er) => {
                return Result::Err(er);
            },
        };
        match kv {
            Value::String(k) => {
                let acc2 = map_insert_exec(acc, k, vv);
                evaluate_entries(host, env, ps, i + 1, acc2, fuel)
            },
            other => {
                // The key is rendered as text; the specification leaves this
                // to the host, so nothing further is promised here.
                let key = other.to_string(host);
                let acc2 = map_insert_exec(acc, key, vv);
                evaluate_entries(host, env, ps, i + 1, acc2, fuel)
            },
        }
    }
}

/// Binds `params[i..]` to `vals[i..]` in order, in the callee's scope.
fn bind_parameters(callee: Environment, params: &Vec<Parameter>, vals: &Vec<Value>, i: usize) -> (r:
    Environment)
    requires
        i <= params@.len(),
        params@.len() == vals@.len(),
    ensures
        env_model(r) == bind_params(
            params@.skip(i as int),
            value_models(vals@).skip(i as int),
            env_model(callee),
        ),
    decreases params@.len() - i,
{
    proof {
        lemma_value_models(vals@);
    }
    let ghost psuffix = params@.skip(i as int);
    let ghost vsuffix = value_models(vals@).skip(i as int);
    if i == params.len() {
        proof {
            assert(psuffix =~= Seq::<Parameter>::empty());
        }
        callee
    } else {
        proof {
            assert(psuffix.first() == params@[i as int]);
            assert(psuffix.drop_first() =~= params@.skip(i as int + 1));
            assert(vsuffix.first() == value_model(vals@[i as int]));
            assert(vsuffix.drop_first() =~= value_models(vals@).skip(i as int + 1));
        }
        let mut callee = callee;
        callee.define(params[i].name.clone(), vals[i].clone());
        bind_parameters(callee, params, vals, i + 1)
    }
}

/// Executes one statement in `env`, yielding the statement's value and the
/// environment it leaves behind.
fn execute_statement<H: Host>(host: &mut H, env: Environment, s: &Stmt, fuel: u64) -> (r: (
    Environment,
    Result<Value, RuntimeError>,
))
    ensures
        ({
            let (step, envs2) = eval_stmt(*s, env_model(env), fuel as nat);
            step matches EvalStep::Done(res) ==> result_corresponds(r.1, res) && env_model(r.0)
                == envs2
        }),
    decreases fuel, stmt_size(*s), 1int,
{
    let ghost envs = env_model(env);
    match s {
        Stmt::Expression(e) => {
            let r = evaluate_expression(host, &env, e, fuel);
            (env, r)
        },
        Stmt::Let { name, value, .. } => {
            match evaluate_expression(host, &env, value, fuel) {
                Result::Ok(v) => {
                    let v2 = v.clone();
                    let mut env2 = env;
                    env2.define(name.clone(), v);
                    (env2, Result::Ok(v2))
                },
                Result::Err(er) => (env, Result::Err(er)),
            }
        },
        Stmt::Const { name, value, .. } => {
            match evaluate_expression(host, &env, value, fuel) {
                Result::Ok(v) => {
                    let v2 = v.clone();
                    let mut env2 = env;
                    env2.define_const(name.clone(), v);
                    (env2, Result::Ok(v2))
                },
                Result::Err(er) => (env, Result::Err(er)),
            }
        },
        Stmt::Assignment { target, value, .. } => {
            match evaluate_expression(host, &env, value, fuel) {
                Result::Ok(v) => match target {
                    AssignmentTarget::Identifier(name) => {
                        let v2 = v.clone();
                        let mut env2 = env;
                        match env2.set(name.as_str(), v) {
                            Result::Ok(()) => (env2, Result::Ok(v2)),
                            Result::Err(er) => (env2, Result::Err(er)),
                        }
                    },
                    _ => (env, Result::Err(RuntimeError::UnsupportedTarget)),
                },
                Result::Err(er) => (env, Result::Err(er)),
            }
        },
        Stmt::If { condition, then_block, else_block } => {
            match evaluate_expression(host, &env, condition, fuel) {
                Result::Ok(c) => {
                    if c.is_truthy() {
                        execute_block(host, env, then_block, fuel)
                    } else {
                        match else_block {
                            Option::Some(els) => execute_block(host, env, els, fuel),
                            Option::None => (env, Result::Ok(Value::Nil)),
                        }
                    }
                },
                Result::Err(er) => (env, Result::Err(er)),
            }
        },
        Stmt::Function { name, parameters, body, .. } => {
            let f = Value::Function {
                name: name.clone(),
                parameters: rc_clone(parameters),
                body: rc_clone(body),
                closure: Box::new(env.clone()),
            };
            proof {
                assert(value_model(f) =~= ValueS::Function {
                    name: name@,
                    parameters: parameters@,
                    body: body@,
                    closure: Box::new(env_model(env)),
                });
            }
            let f2 = f.clone();
            let mut env2 = env;
            env2.define(name.clone(), f);
            (env2, Result::Ok(f2))
        },
        Stmt::Return(opt) => match opt {
            Option::Some(e) => {
                let r = evaluate_expression(host, &env, e, fuel);
                (env, r)
            },
            Option::None => (env, Result::Ok(Value::Nil)),
        },
        _ => (env, Result::Err(RuntimeError::UnsupportedStatement)),
    }
}

/// Executes `ss[i..]` in order; the value is the last statement's.
fn execute_statements<H: Host>(
    host: &mut H,
    env: Environment,
    ss: &Vec<Stmt>,
    i: usize,
    fuel: u64,
) -> (r: (Environment, Result<Value, RuntimeError>))
    requires
        i <= ss@.len(),
    ensures
        ({
            let (step, envs2) = eval_stmts(ss@.skip(i as int), env_model(env), fuel as nat);
            step matches EvalStep::Done(res) ==> result_corresponds(r.1, res) && env_model(r.0)
                == envs2
        }),
    decreases fuel, stmts_size(ss@.skip(i as int)), 2int,
{
    let ghost suffix = ss@.skip(i as int);
    if i == ss.len() {
        proof {
            assert(suffix =~= Seq::<Stmt>::empty());
        }
        (env, Result::Ok(Value::Nil))
    } else {
        proof {
            assert(suffix.first() == ss@[i as int]);
            assert(suffix.drop_first() =~= ss@.skip(i as int + 1));
        }
        let (env1, r1) = execute_statement(host, env, &ss[i], fuel);
        match r1 {
            Result::Ok(v) => {
                if i + 1 == ss.len() {
                    proof {
                        assert(suffix.len() == 1);
                    }
                    (env1, Result::Ok(v))
                } else {
                    execute_statements(host, env1, ss, i + 1, fuel)
                }
            },
            Result::Err(er) => (env1, Result::Err(er)),
        }
    }
}

/// Executes a block: its statements run in a fresh child scope, and the
/// scope is left again on exit, also when a statement failed.
fn execute_block<H: Host>(host: &mut H, env: Environment, ss: &Vec<Stmt>, fuel: u64) -> (r: (
    Environment,
    Result<Value, RuntimeError>,
))
    ensures
        ({
            let (step, envs2) = eval_block(ss@, env_model(env), fuel as nat);
            step matches EvalStep::Done(res) ==> result_corresponds(r.1, res) && env_model(r.0)
                == envs2
        }),
    decreases fuel, stmts_size(ss@), 3int,
{
    let child = Environment::new_with_parent(env);
    proof {
        assert(ss@.skip(0) =~= ss@);
    }
    let (env1, r) = execute_statements(host, child, ss, 0, fuel);
    let out = env1.pop_scope();
    (out, r)
}

impl Value {
    /// Renders this value as the REPL and string conversion show it. A value
    /// without floats renders to exactly its specified text; the rendering of
    /// any float in it is the host's.
    pub fn to_string<H: Host>(&self, host: &mut H) -> (r: String)
        ensures
            value_display(value_model(*self)) matches Some(t) ==> r@ == t,
        decreases self,
    {
        match self {
            Value::Integer(i) => i64_to_string(*i),
            Value::Float(bits) => host.float_display(*bits),
            Value::String(s) => s.clone(),
            Value::Boolean(b) => {
                if *b {
                    String::from_str("true")
                } else {
                    String::from_str("false")
                }
            },
            Value::Nil => String::from_str("nil"),
            Value::Array(elems) => {
                let ghost a = value_models(elems@);
                proof {
                    lemma_value_models(elems@);
                }
                let mut out = String::from_str("[");
                let mut i: usize = 0;
                #[verifier::loop_isolation(false)]
                while i < elems.len()
                    invariant
                        i <= elems@.len(),
                        match values_display(a.take(i as int)) {
                            Option::Some(t) => out@ == "["@ + t,
                            Option::None => true,
                        },
                    decreases elems@.len() - i,
                {
                    proof {
                        assert(decreases_to!(*self => self->Array_0));
                        assert(decreases_to!(self->Array_0 => self->Array_0@));
                        assert(decreases_to!(self->Array_0@ => self->Array_0@[i as int]));
                        assert(self->Array_0@ == elems@);
                    }
                    if i > 0 {
                        out.append(", ");
                    }
                    let s = elems[i].to_string(host);
                    out.append(s.as_str());
                    proof {
                        assert(a.take(i as int + 1).drop_last() =~= a.take(i as int));
                        assert(a.take(i as int + 1).last() == value_model(elems@[i as int]));
                        match values_display(a.take(i as int + 1)) {
                            Option::Some(t) => {
                                assert(out@ =~= "["@ + t);
                            },
                            Option::None => {},
                        }
                    }
                    i += 1;
                }
                proof {
                    assert(a.take(elems@.len() as int) =~= a);
                }
                out.append("]");
                proof {
                    match value_display(value_model(*self)) {
                        Option::Some(t) => {
                            assert(out@ =~= t);
                        },
                        Option::None => {},
                    }
                }
                out
            },
            Value::MapVal(pairs) => {
                let ghost m = pair_models(pairs@);
                proof {
                    lemma_pair_models(pairs@);
                }
                let mut out = String::from_str("{");
                let mut i: usize = 0;
                #[verifier::loop_isolation(false)]
                while i < pairs.len()
                    invariant
                        i <= pairs@.len(),
                        match entries_display(m.take(i as int)) {
                            Option::Some(t) => out@ == "{"@ + t,
                            Option::None => true,
                        },
                    decreases pairs@.len() - i,
                {
                    proof {
                        assert(decreases_to!(*self => self->MapVal_0));
                        assert(decreases_to!(self->MapVal_0 => self->MapVal_0@));
                        assert(decreases_to!(self->MapVal_0@ => self->MapVal_0@[i as int]));
                        assert(decreases_to!(self->MapVal_0@[i as int] => self->MapVal_0@[
                            i as int
                        ].1));
                        assert(self->MapVal_0@ == pairs@);
                    }
                    if i > 0 {
                        out.append(", ");
                    }
                    out.append(pairs[i].0.as_str());
                    out.append(": ");
                    let s = pairs[i].1.to_string(host);
                    out.append(s.as_str());
                    proof {
                        assert(m.take(i as int + 1).drop_last() =~= m.take(i as int));
                        assert(m.take(i as int + 1).last() == (
                            pairs@[i as int].0@,
                            value_model(pairs@[i as int].1),
                        ));
                        match entries_display(m.take(i as int + 1)) {
                            Option::Some(t) => {
                                assert(out@ =~= "{"@ + t);
                            },
                            Option::None => {},
                        }
                    }
                    i += 1;
                }
                proof {
                    assert(m.take(pairs@.len() as int) =~= m);
                }
                out.append("}");
                proof {
                    match value_display(value_model(*self)) {
                        Option::Some(t) => {
                            assert(out@ =~= t);
                        },
                        Option::None => {},
                    }
                }
                out
            },
            Value::Function { name, .. } => {
                let r = String::from_str("function ").concat(name.as_str());
                proof {
                    assert(r@ =~= "function "@ + name@);
                }
                r
            },
        }
    }
}

/// The interpreter: the current environment, carried across programs so that
/// an interactive session keeps its definitions.
pub struct Interpreter {
    environment: Environment,
}

impl Interpreter {
    /// The model of the current environment.
    pub closed spec fn env(self) -> EnvS {
        env_model(self.environment)
    }

    /// A fresh interpreter whose global scope has the built-in names bound.
    pub fn new() -> (r: Interpreter)
        ensures
            r.env() == with_builtins(
                EnvS { bindings: Seq::<(Seq<char>, ValueS, bool)>::empty(), parent: Option::None },
            ),
    {
        let mut globals = Environment::new();
        register_builtins(&mut globals);
        Interpreter { environment: globals }
    }

    /// Runs a program: its statements in order in the current environment.
    /// The result is the last statement's value, `nil` for an empty program,
    /// or the first failure. Wherever the semantics finishes without the
    /// host, the result and the environment afterwards are exactly the
    /// specified ones.
    pub fn interpret<H: Host>(&mut self, host: &mut H, program: Program) -> (r: Result<
        Value,
        RuntimeError,
    >)
        ensures
            ({
                let (step, envs2) = eval_program(
                    program.statements@,
                    old(self).env(),
                    CALL_DEPTH_LIMIT as nat,
                );
                step matches EvalStep::Done(res) ==> result_corresponds(r, res) && final(self).env()
                    == envs2
            }),
    {
        let mut env = Environment::new();
        core::mem::swap(&mut env, &mut self.environment);
        proof {
            assert(program.statements@.skip(0) =~= program.statements@);
        }
        let (env2, r) = execute_statements(host, env, &program.statements, 0, CALL_DEPTH_LIMIT);
        let mut env2 = env2;
        core::mem::swap(&mut env2, &mut self.environment);
        r
    }
}

} // verus!
