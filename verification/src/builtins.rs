//! The fixed table of built-in function names.
//!
//! The core only decides *whether* a name is a built-in; calling one is the
//! host application's work. Each built-in is also bound in the global scope as
//! a function value with no parameters and no body, so that the name itself
//! evaluates to something.

use crate::strutil::str_eq;
use crate::value::{
    env_model, envs_define, value_model, EnvS, Environment, Value, ValueS,
};
use std::rc::Rc;
use vstd::prelude::*;
use vstd::string::StringExecFns;

verus! {

/// True when `n` names a built-in function.
pub open spec fn is_builtin_name(n: Seq<char>) -> bool {
    ||| n == "print"@
    ||| n == "println"@
    ||| n == "input"@
    ||| n == "read_file"@
    ||| n == "write_file"@
    ||| n == "len"@
    ||| n == "to_string"@
    ||| n == "to_int"@
    ||| n == "to_float"@
    ||| n == "exit"@
    ||| n == "echo"@
    ||| n == "cd"@
    ||| n == "pwd"@
    ||| n == "run"@
}

/// Whether `name` is a built-in function.
pub fn is_builtin(name: &str) -> (r: bool)
    ensures
        r == is_builtin_name(name@),
{
    str_eq(name, "print") || str_eq(name, "println") || str_eq(name, "input") || str_eq(
        name,
        "read_file",
    ) || str_eq(name, "write_file") || str_eq(name, "len") || str_eq(name, "to_string") || str_eq(
        name,
        "to_int",
    ) || str_eq(name, "to_float") || str_eq(name, "exit") || str_eq(name, "echo") || str_eq(
        name,
        "cd",
    ) || str_eq(name, "pwd") || str_eq(name, "run")
}

/// The placeholder function value a built-in name is bound to.
pub open spec fn builtin_fn_value(name: Seq<char>) -> ValueS {
    ValueS::Function {
        name,
        parameters: Seq::empty(),
        body: Seq::empty(),
        closure: Box::new(
            EnvS { bindings: Seq::empty(), parent: Option::None },
        ),
    }
}

fn builtin_function(name: &str) -> (v: Value)
    ensures
        value_model(v) == builtin_fn_value(name@),
{
    let v = Value::Function {
        name: String::from_str(name),
        parameters: Rc::new(Vec::new()),
        body: Rc::new(Vec::new()),
        closure: Box::new(Environment::new()),
    };
    proof {
        assert(value_model(v) =~= builtin_fn_value(name@));
    }
    v
}

/// The global scope after the built-in names are bound, in their fixed order.
pub open spec fn with_builtins(env: EnvS) -> EnvS {
    let e1 = envs_define(env, "print"@, builtin_fn_value("print"@), false);
    let e2 = envs_define(e1, "println"@, builtin_fn_value("println"@), false);
    let e3 = envs_define(e2, "input"@, builtin_fn_value("input"@), false);
    let e4 = envs_define(e3, "read_file"@, builtin_fn_value("read_file"@), false);
    let e5 = envs_define(e4, "write_file"@, builtin_fn_value("write_file"@), false);
    let e6 = envs_define(e5, "len"@, builtin_fn_value("len"@), false);
    let e7 = envs_define(e6, "to_string"@, builtin_fn_value("to_string"@), false);
    let e8 = envs_define(e7, "to_int"@, builtin_fn_value("to_int"@), false);
    let e9 = envs_define(e8, "to_float"@, builtin_fn_value("to_float"@), false);
    let e10 = envs_define(e9, "exit"@, builtin_fn_value("exit"@), false);
    let e11 = envs_define(e10, "echo"@, builtin_fn_value("echo"@), false);
    let e12 = envs_define(e11, "cd"@, builtin_fn_value("cd"@), false);
    let e13 = envs_define(e12, "pwd"@, builtin_fn_value("pwd"@), false);
    envs_define(e13, "run"@, builtin_fn_value("run"@), false)
}

/// Binds every built-in name in `env`.
pub fn register_builtins(env: &mut Environment)
    ensures
        env_model(*final(env)) == with_builtins(env_model(*old(env))),
{
    env.define(String::from_str("print"), builtin_function("print"));
    env.define(String::from_str("println"), builtin_function("println"));
    env.define(String::from_str("input"), builtin_function("input"));
    env.define(String::from_str("read_file"), builtin_function("read_file"));
    env.define(String::from_str("write_file"), builtin_function("write_file"));
    env.define(String::from_str("len"), builtin_function("len"));
    env.define(String::from_str("to_string"), builtin_function("to_string"));
    env.define(String::from_str("to_int"), builtin_function("to_int"));
    env.define(String::from_str("to_float"), builtin_function("to_float"));
    env.define(String::from_str("exit"), builtin_function("exit"));
    env.define(String::from_str("echo"), builtin_function("echo"));
    env.define(String::from_str("cd"), builtin_function("cd"));
    env.define(String::from_str("pwd"), builtin_function("pwd"));
    env.define(String::from_str("run"), builtin_function("run"));
}

} // verus!
