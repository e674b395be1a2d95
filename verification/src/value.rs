//! Runtime values and lexically scoped environments.
//!
//! A [`Value`] is modelled by a [`ValueS`]: the same shape over character
//! sequences and ghost sequences, which is what every contract in the
//! evaluator speaks about. An [`Environment`] is a stack of scopes, each a
//! list of bindings with a per-name constant flag; its model is [`EnvS`].
//!
//! A float value holds the bit pattern of an IEEE-754 double. The core never
//! computes with it; only the host application does.

use crate::ast::{Parameter, Stmt};
use crate::errors::{err_model, ErrS, RuntimeError};
use crate::strutil::{rc_clone, str_eq};
use std::rc::Rc;
use vstd::pervasive::VecAdditionalExecFns;
use vstd::prelude::*;
use vstd::string::StringExecFns;

verus! {

#[derive(Debug)]
pub enum Value {
    Integer(i64),
    Float(u64),
    String(String),
    Boolean(bool),
    Nil,
    Array(Vec<Value>),
    MapVal(Vec<(String, Value)>),
    Function {
        name: String,
        parameters: Rc<Vec<Parameter>>,
        body: Rc<Vec<Stmt>>,
        closure: Box<Environment>,
    },
}

/// A lexical scope: bindings made in this scope, and the enclosing scope.
/// A name bound twice in one scope is shadowed by the later binding, which is
/// what lookup's last-match rule implements.
#[derive(Debug)]
pub struct Environment {
    bindings: Vec<(String, Value, bool)>,
    parent: Option<Box<Environment>>,
}

/// The mathematical shadow of a [`Value`].
#[verifier::ext_equal]
pub enum ValueS {
    Integer(i64),
    Float(u64),
    String(Seq<char>),
    Boolean(bool),
    Nil,
    Array(Seq<ValueS>),
    MapVal(Seq<(Seq<char>, ValueS)>),
    Function {
        name: Seq<char>,
        parameters: Seq<Parameter>,
        body: Seq<Stmt>,
        closure: Box<EnvS>,
    },
}

/// The mathematical shadow of an [`Environment`].
#[verifier::ext_equal]
pub struct EnvS {
    pub bindings: Seq<(Seq<char>, ValueS, bool)>,
    pub parent: Option<Box<EnvS>>,
}

/// The model of a value: the same data over sequences, with each string as
/// its characters.
pub open spec fn value_model(v: Value) -> ValueS
    decreases v,
{
    match v {
        Value::Integer(i) => ValueS::Integer(i),
        Value::Float(bits) => ValueS::Float(bits),
        Value::String(s) => ValueS::String(s@),
        Value::Boolean(b) => ValueS::Boolean(b),
        Value::Nil => ValueS::Nil,
        Value::Array(elems) => ValueS::Array(value_models(elems@)),
        Value::MapVal(pairs) => ValueS::MapVal(pair_models(pairs@)),
        Value::Function { name, parameters, body, closure } => ValueS::Function {
            name: name@,
            parameters: parameters@,
            body: body@,
            closure: Box::new(env_model(*closure)),
        },
    }
}

/// The models of a list of values, in order.
pub open spec fn value_models(vs: Seq<Value>) -> Seq<ValueS>
    decreases vs,
{
    if vs.len() == 0 {
        Seq::empty()
    } else {
        value_models(vs.drop_last()).push(value_model(vs.last()))
    }
}

/// The models of a map's entries, in order.
pub open spec fn pair_models(ps: Seq<(String, Value)>) -> Seq<(Seq<char>, ValueS)>
    decreases ps,
{
    if ps.len() == 0 {
        Seq::empty()
    } else {
        pair_models(ps.drop_last()).push((ps.last().0@, value_model(ps.last().1)))
    }
}

/// The models of one scope's bindings, in order.
pub open spec fn binding_models(bs: Seq<(String, Value, bool)>) -> Seq<(Seq<char>, ValueS, bool)>
    decreases bs,
{
    if bs.len() == 0 {
        Seq::empty()
    } else {
        binding_models(bs.drop_last()).push(
            (bs.last().0@, value_model(bs.last().1), bs.last().2),
        )
    }
}

/// The model of an environment: its scopes' bindings and its parent chain.
pub closed spec fn env_model(e: Environment) -> EnvS
    decreases e,
{
    EnvS {
        bindings: binding_models(e.bindings@),
        parent: match e.parent {
            Option::Some(b) => Option::Some(Box::new(env_model(*b))),
            Option::None => Option::None,
        },
    }
}

/// Model lists keep length and order.
pub proof fn lemma_value_models(s: Seq<Value>)
    ensures
        value_models(s).len() == s.len(),
        forall|i: int| #![auto] 0 <= i < s.len() ==> value_models(s)[i] == value_model(s[i]),
    decreases s,
{
    if s.len() > 0 {
        lemma_value_models(s.drop_last());
    }
}

pub proof fn lemma_pair_models(s: Seq<(String, Value)>)
    ensures
        pair_models(s).len() == s.len(),
        forall|i: int| #![auto]
            0 <= i < s.len() ==> pair_models(s)[i] == (s[i].0@, value_model(s[i].1)),
    decreases s,
{
    if s.len() > 0 {
        lemma_pair_models(s.drop_last());
    }
}

pub proof fn lemma_binding_models(s: Seq<(String, Value, bool)>)
    ensures
        binding_models(s).len() == s.len(),
        forall|i: int| #![auto]
            0 <= i < s.len() ==> binding_models(s)[i] == (
                s[i].0@,
                value_model(s[i].1),
                s[i].2,
            ),
    decreases s,
{
    if s.len() > 0 {
        lemma_binding_models(s.drop_last());
    }
}

/// The name of a value's type, as used in error messages.
pub open spec fn type_name_of(v: ValueS) -> Seq<char> {
    match v {
        ValueS::Integer(_) => "int"@,
        ValueS::Float(_) => "float"@,
        ValueS::String(_) => "string"@,
        ValueS::Boolean(_) => "bool"@,
        ValueS::Nil => "nil"@,
        ValueS::Array(_) => "array"@,
        ValueS::MapVal(_) => "map"@,
        ValueS::Function { .. } => "function"@,
    }
}

/// The bits of an IEEE-754 double are all clear except possibly the sign bit
/// exactly when the value it encodes is zero; this is the one fact about
/// floats the core relies on.
pub open spec fn float_bits_zero(bits: u64) -> bool {
    bits & 0x7fff_ffff_ffff_ffff == 0
}

/// Truthiness: `false`, `nil`, zero numbers, and empty strings, arrays and
/// maps are falsy; everything else is truthy.
pub open spec fn truthy(v: ValueS) -> bool {
    match v {
        ValueS::Boolean(b) => b,
        ValueS::Nil => false,
        ValueS::Integer(i) => i != 0,
        ValueS::Float(bits) => !float_bits_zero(bits),
        ValueS::String(s) => s.len() != 0,
        ValueS::Array(a) => a.len() != 0,
        ValueS::MapVal(m) => m.len() != 0,
        ValueS::Function { .. } => true,
    }
}

/// The textual rendering of a value, when the value alone determines it.
/// A value containing a float renders through the host, so its text is not
/// the value's own.
pub open spec fn value_display(v: ValueS) -> Option<Seq<char>>
    decreases v,
{
    match v {
        ValueS::Integer(i) => Option::Some(crate::strutil::int_str(i as int)),
        ValueS::Float(_) => Option::None,
        ValueS::String(s) => Option::Some(s),
        ValueS::Boolean(b) => Option::Some(
            if b {
                "true"@
            } else {
                "false"@
            },
        ),
        ValueS::Nil => Option::Some("nil"@),
        ValueS::Array(a) => match values_display(a) {
            Option::Some(t) => Option::Some("["@ + t + "]"@),
            Option::None => Option::None,
        },
        ValueS::MapVal(m) => match entries_display(m) {
            Option::Some(t) => Option::Some("{"@ + t + "}"@),
            Option::None => Option::None,
        },
        ValueS::Function { name, .. } => Option::Some("function "@ + name),
    }
}

/// Array elements joined with `", "`.
pub open spec fn values_display(a: Seq<ValueS>) -> Option<Seq<char>>
    decreases a,
{
    if a.len() == 0 {
        Option::Some(Seq::empty())
    } else {
        match (values_display(a.drop_last()), value_display(a.last())) {
            (Option::Some(t), Option::Some(h)) => Option::Some(
                if a.len() == 1 {
                    h
                } else {
                    t + ", "@ + h
                },
            ),
            _ => Option::None,
        }
    }
}

/// Map entries as `key: value`, joined with `", "`.
pub open spec fn entries_display(m: Seq<(Seq<char>, ValueS)>) -> Option<Seq<char>>
    decreases m,
{
    if m.len() == 0 {
        Option::Some(Seq::empty())
    } else {
        match (entries_display(m.drop_last()), value_display(m.last().1)) {
            (Option::Some(t), Option::Some(h)) => Option::Some(
                if m.len() == 1 {
                    m.last().0 + ": "@ + h
                } else {
                    t + ", "@ + m.last().0 + ": "@ + h
                },
            ),
            _ => Option::None,
        }
    }
}

impl Value {
    /// The name of this value's type.
    pub fn type_label(&self) -> (r: &'static str)
        ensures
            r@ == type_name_of(value_model(*self)),
    {
        match self {
            Value::Integer(_) => "int",
            Value::Float(_) => "float",
            Value::String(_) => "string",
            Value::Boolean(_) => "bool",
            Value::Nil => "nil",
            Value::Array(_) => "array",
            Value::MapVal(_) => "map",
            Value::Function { .. } => "function",
        }
    }

    /// Whether this value selects the then-branch of a conditional.
    pub fn is_truthy(&self) -> (r: bool)
        ensures
            r == truthy(value_model(*self)),
    {
        match self {
            Value::Boolean(b) => *b,
            Value::Nil => false,
            Value::Integer(i) => *i != 0,
            Value::Float(bits) => (*bits) & 0x7fff_ffff_ffff_ffff != 0,
            Value::String(s) => !s.as_str().is_empty(),
            Value::Array(a) => a.len() != 0,
            Value::MapVal(m) => {
                proof {
                    lemma_pair_models(m@);
                }
                m.len() != 0
            },
            Value::Function { .. } => true,
        }
    }
}

impl Clone for Value {
    /// A deep copy with the same model. Parameter lists and bodies of
    /// function values are shared, so a copied closure runs the same code.
    #[verifier::loop_isolation(false)]
    fn clone(&self) -> (r: Value)
        ensures
            value_model(r) == value_model(*self),
        decreases self,
    {
        match self {
            Value::Integer(i) => Value::Integer(*i),
            Value::Float(bits) => Value::Float(*bits),
            Value::String(s) => Value::String(s.clone()),
            Value::Boolean(b) => Value::Boolean(*b),
            Value::Nil => Value::Nil,
            Value::Array(elems) => {
                let mut out: Vec<Value> = Vec::new();
                let mut i: usize = 0;
                while i < elems.len()
                    invariant
                        i <= elems.len(),
                        out@.len() == i,
                        forall|j: int| #![auto]
                            0 <= j < i ==> value_model(out@[j]) == value_model(elems@[j]),
                    decreases elems.len() - i,
                {
                    proof {
                        assert(decreases_to!(*self => self->Array_0));
                        assert(decreases_to!(self->Array_0 => self->Array_0@));
                        assert(decreases_to!(self->Array_0@ => self->Array_0@[i as int]));
                        assert(self->Array_0@ == elems@);
                    }
                    out.push(elems[i].clone());
                    i += 1;
                }
                proof {
                    lemma_value_models(out@);
                    lemma_value_models(elems@);
                    assert(value_models(out@) =~= value_models(elems@));
                }
                Value::Array(out)
            },
            Value::MapVal(pairs) => {
                let mut out: Vec<(String, Value)> = Vec::new();
                let mut i: usize = 0;
                while i < pairs.len()
                    invariant
                        i <= pairs.len(),
                        out@.len() == i,
                        forall|j: int| #![auto]
                            0 <= j < i ==> out@[j].0@ == pairs@[j].0@ && value_model(out@[j].1)
                                == value_model(pairs@[j].1),
                    decreases pairs.len() - i,
                {
                    proof {
                        assert(decreases_to!(*self => self->MapVal_0));
                        assert(decreases_to!(self->MapVal_0 => self->MapVal_0@));
                        assert(decreases_to!(self->MapVal_0@ => self->MapVal_0@[i as int]));
                        assert(decreases_to!(self->MapVal_0@[i as int] => self->MapVal_0@[i as int].1));
                        assert(self->MapVal_0@ == pairs@);
                    }
                    let p = &pairs[i];
                    out.push((p.0.clone(), p.1.clone()));
                    i += 1;
                }
                proof {
                    lemma_pair_models(out@);
                    lemma_pair_models(pairs@);
                    assert(pair_models(out@) =~= pair_models(pairs@));
                }
                Value::MapVal(out)
            },
            Value::Function { name, parameters, body, closure } => {
                proof {
                    assert(decreases_to!(*self => self->closure));
                    assert(self->closure == *closure);
                }
                Value::Function {
                    name: name.clone(),
                    parameters: rc_clone(parameters),
                    body: rc_clone(body),
                    closure: Box::new((&**closure).clone()),
                }
            },
        }
    }
}

impl Clone for Environment {
    /// A deep copy with the same model; this is what closure capture uses to
    /// take its snapshot of the defining scope.
    #[verifier::loop_isolation(false)]
    fn clone(&self) -> (r: Environment)
        ensures
            env_model(r) == env_model(*self),
        decreases self,
    {
        let mut out: Vec<(String, Value, bool)> = Vec::new();
        let mut i: usize = 0;
        while i < self.bindings.len()
            invariant
                i <= self.bindings.len(),
                out@.len() == i,
                forall|j: int| #![auto]
                    0 <= j < i ==> out@[j].0@ == self.bindings@[j].0@ && value_model(out@[j].1)
                        == value_model(self.bindings@[j].1) && out@[j].2 == self.bindings@[j].2,
            decreases self.bindings.len() - i,
        {
            proof {
                assert(decreases_to!(*self => self.bindings));
                assert(decreases_to!(self.bindings => self.bindings@));
                assert(decreases_to!(self.bindings@ => self.bindings@[i as int]));
                assert(decreases_to!(self.bindings@[i as int] => self.bindings@[i as int].1));
            }
            let b = &self.bindings[i];
            out.push((b.0.clone(), b.1.clone(), b.2));
            i += 1;
        }
        let parent: Option<Box<Environment>> = match &self.parent {
            Option::Some(p) => {
                proof {
                    assert(decreases_to!(*self => self.parent));
                }
                Option::Some(Box::new((&**p).clone()))
            },
            Option::None => Option::None,
        };
        proof {
            lemma_binding_models(out@);
            lemma_binding_models(self.bindings@);
            assert(binding_models(out@) =~= binding_models(self.bindings@));
        }
        Environment { bindings: out, parent }
    }
}

/// The last binding of `name` in one scope, with its constant flag.
pub open spec fn scope_lookup(
    bs: Seq<(Seq<char>, ValueS, bool)>,
    name: Seq<char>,
) -> Option<(ValueS, bool)>
    decreases bs,
{
    if bs.len() == 0 {
        Option::None
    } else if bs.last().0 == name {
        Option::Some((bs.last().1, bs.last().2))
    } else {
        scope_lookup(bs.drop_last(), name)
    }
}

/// The binding of `name` in the nearest scope that has one.
pub open spec fn envs_lookup(env: EnvS, name: Seq<char>) -> Option<(ValueS, bool)>
    decreases env,
{
    match scope_lookup(env.bindings, name) {
        Option::Some(p) => Option::Some(p),
        Option::None => match env.parent {
            Option::Some(p) => envs_lookup(*p, name),
            Option::None => Option::None,
        },
    }
}

/// A new binding in the innermost scope; it shadows earlier bindings of the
/// same name in this scope and in enclosing scopes.
pub open spec fn envs_define(env: EnvS, name: Seq<char>, v: ValueS, constant: bool) -> EnvS {
    EnvS { bindings: env.bindings.push((name, v, constant)), parent: env.parent }
}

/// One scope with its last binding of `name` replaced; the constant flag is
/// kept.
pub open spec fn scope_update(
    bs: Seq<(Seq<char>, ValueS, bool)>,
    name: Seq<char>,
    v: ValueS,
) -> Seq<(Seq<char>, ValueS, bool)>
    decreases bs,
{
    if bs.len() == 0 {
        bs
    } else if bs.last().0 == name {
        bs.drop_last().push((name, v, bs.last().2))
    } else {
        scope_update(bs.drop_last(), name, v).push(bs.last())
    }
}

/// Assignment: the nearest scope that binds `name` has that binding replaced.
/// Assigning to a constant, or to a name no scope binds, fails and leaves the
/// chain as it was.
pub open spec fn envs_set(env: EnvS, name: Seq<char>, v: ValueS) -> Result<EnvS, ErrS>
    decreases env,
{
    match scope_lookup(env.bindings, name) {
        Option::Some(p) => {
            if p.1 {
                Result::Err(ErrS::ConstAssignment(name))
            } else {
                Result::Ok(EnvS { bindings: scope_update(env.bindings, name, v), parent: env.parent })
            }
        },
        Option::None => match env.parent {
            Option::Some(p) => match envs_set(*p, name, v) {
                Result::Ok(m) => Result::Ok(
                    EnvS { bindings: env.bindings, parent: Option::Some(Box::new(m)) },
                ),
                Result::Err(e) => Result::Err(e),
            },
            Option::None => Result::Err(ErrS::UndefinedVariable(name)),
        },
    }
}

/// A child scope whose parent is `env`.
pub open spec fn envs_push(env: EnvS) -> EnvS {
    EnvS { bindings: Seq::empty(), parent: Option::Some(Box::new(env)) }
}

/// The enclosing scope again: leaving a scope keeps assignments that reached
/// the enclosing chain and drops bindings made in the left scope.
pub open spec fn envs_pop(env: EnvS) -> EnvS {
    match env.parent {
        Option::Some(p) => *p,
        Option::None => env,
    }
}

proof fn lemma_scope_lookup_none(bs: Seq<(Seq<char>, ValueS, bool)>, name: Seq<char>)
    requires
        forall|j: int| 0 <= j < bs.len() ==> #[trigger] bs[j].0 != name,
    ensures
        scope_lookup(bs, name) is None,
    decreases bs,
{
    if bs.len() > 0 {
        lemma_scope_lookup_none(bs.drop_last(), name);
    }
}

proof fn lemma_scope_lookup_at(bs: Seq<(Seq<char>, ValueS, bool)>, name: Seq<char>, i: int)
    requires
        0 <= i < bs.len(),
        bs[i].0 == name,
        forall|j: int| i < j < bs.len() ==> #[trigger] bs[j].0 != name,
    ensures
        scope_lookup(bs, name) == Option::Some((bs[i].1, bs[i].2)),
    decreases bs,
{
    if i == bs.len() - 1 {
    } else {
        lemma_scope_lookup_at(bs.drop_last(), name, i);
    }
}

proof fn lemma_scope_update_at(
    bs: Seq<(Seq<char>, ValueS, bool)>,
    name: Seq<char>,
    v: ValueS,
    i: int,
)
    requires
        0 <= i < bs.len(),
        bs[i].0 == name,
        forall|j: int| i < j < bs.len() ==> #[trigger] bs[j].0 != name,
    ensures
        scope_update(bs, name, v) =~= bs.update(i, (name, v, bs[i].2)),
    decreases bs,
{
    if i == bs.len() - 1 {
        assert(scope_update(bs, name, v) =~= bs.update(i, (name, v, bs[i].2)));
    } else {
        lemma_scope_update_at(bs.drop_last(), name, v, i);
        assert(bs.update(i, (name, v, bs[i].2)).drop_last() =~= bs.drop_last().update(
            i,
            (name, v, bs[i].2),
        ));
        assert(scope_update(bs, name, v) =~= bs.update(i, (name, v, bs[i].2)));
    }
}

impl Environment {
    /// The outermost scope, with nothing bound.
    pub fn new() -> (r: Environment)
        ensures
            env_model(r) == (EnvS {
                bindings: Seq::<(Seq<char>, ValueS, bool)>::empty(),
                parent: Option::None,
            }),
    {
        let r = Environment { bindings: Vec::new(), parent: Option::None };
        proof {
            assert(r.bindings@ =~= Seq::<(String, Value, bool)>::empty());
            assert(binding_models(r.bindings@) =~= Seq::<(Seq<char>, ValueS, bool)>::empty());
            assert(env_model(r) =~= EnvS {
                bindings: Seq::<(Seq<char>, ValueS, bool)>::empty(),
                parent: Option::None,
            });
        }
        r
    }

    /// A child scope of `parent`.
    pub fn new_with_parent(parent: Environment) -> (r: Environment)
        ensures
            env_model(r) == envs_push(env_model(parent)),
    {
        let r = Environment { bindings: Vec::new(), parent: Option::Some(Box::new(parent)) };
        proof {
            assert(r.bindings@ =~= Seq::<(String, Value, bool)>::empty());
            assert(binding_models(r.bindings@) =~= Seq::<(Seq<char>, ValueS, bool)>::empty());
            assert(env_model(r) =~= envs_push(env_model(parent)));
        }
        r
    }

    /// Leaves this scope, returning to the enclosing one. Bindings made here
    /// are dropped; assignments that reached enclosing scopes are kept. The
    /// outermost scope stays as it is.
    pub fn pop_scope(self) -> (r: Environment)
        ensures
            env_model(r) == envs_pop(env_model(self)),
    {
        let Environment { bindings, parent } = self;
        match parent {
            Option::Some(p) => *p,
            Option::None => Environment { bindings, parent: Option::None },
        }
    }

    /// Binds `name` in this scope.
    pub fn define(&mut self, name: String, value: Value)
        ensures
            env_model(*final(self)) == envs_define(
                env_model(*old(self)),
                name@,
                value_model(value),
                false,
            ),
    {
        self.define_variable(name, value, false);
    }

    /// Binds `name` in this scope as a constant.
    pub fn define_const(&mut self, name: String, value: Value)
        ensures
            env_model(*final(self)) == envs_define(
                env_model(*old(self)),
                name@,
                value_model(value),
                true,
            ),
    {
        self.define_variable(name, value, true);
    }

    fn define_variable(&mut self, name: String, value: Value, is_const: bool)
        ensures
            env_model(*final(self)) == envs_define(
                env_model(*old(self)),
                name@,
                value_model(value),
                is_const,
            ),
    {
        let ghost bs0 = self.bindings@;
        let ghost entry = (name, value, is_const);
        self.bindings.push((name, value, is_const));
        proof {
            assert(self.bindings@.drop_last() =~= bs0);
            assert(binding_models(self.bindings@) =~= binding_models(bs0).push(
                (entry.0@, value_model(entry.1), entry.2),
            ));
        }
    }

    /// The index of the last binding of `name` in this scope, if any.
    fn find_last(bindings: &Vec<(String, Value, bool)>, name: &str) -> (r: Option<usize>)
        ensures
            match r {
                Option::Some(i) => i < bindings@.len() && bindings@[i as int].0@ == name@
                    && forall|j: int|
                        i < j < bindings@.len() ==> #[trigger] bindings@[j].0@ != name@,
                Option::None => forall|j: int|
                    0 <= j < bindings@.len() ==> #[trigger] bindings@[j].0@ != name@,
            },
    {
        let mut i = bindings.len();
        while i > 0
            invariant
                i <= bindings.len(),
                forall|j: int| i <= j < bindings@.len() ==> #[trigger] bindings@[j].0@ != name@,
            decreases i,
        {
            i = i - 1;
            if str_eq(bindings[i].0.as_str(), name) {
                return Option::Some(i);
            }
        }
        Option::None
    }

    /// The value bound to `name` in the nearest scope that binds it.
    pub fn get(&self, name: &str) -> (r: Option<Value>)
        ensures
            match r {
                Option::Some(v) => envs_lookup(env_model(*self), name@) matches Some(p)
                    && value_model(v) == p.0,
                Option::None => envs_lookup(env_model(*self), name@) is None,
            },
        decreases *self,
    {
        proof {
            lemma_binding_models(self.bindings@);
        }
        let ghost bsm = binding_models(self.bindings@);
        match Self::find_last(&self.bindings, name) {
            Option::Some(i) => {
                proof {
                    lemma_scope_lookup_at(bsm, name@, i as int);
                }
                Option::Some(self.bindings[i].1.clone())
            },
            Option::None => {
                proof {
                    lemma_scope_lookup_none(bsm, name@);
                }
                match &self.parent {
                    Option::Some(p) => (&**p).get(name),
                    Option::None => Option::None,
                }
            },
        }
    }

    /// Assigns to the nearest binding of `name` in an owned scope chain.
    fn set_owned(env: Environment, name: &str, value: Value) -> (r: (
        Environment,
        Result<(), RuntimeError>,
    ))
        ensures
            match envs_set(env_model(env), name@, value_model(value)) {
                Result::Ok(m) => r.1 is Ok && env_model(r.0) == m,
                Result::Err(es) => r.1 matches Err(e) && err_model(e) == es && env_model(r.0)
                    == env_model(env),
            },
        decreases env,
    {
        let Environment { mut bindings, parent } = env;
        let ghost bsm = binding_models(bindings@);
        proof {
            lemma_binding_models(bindings@);
        }
        match Self::find_last(&bindings, name) {
            Option::Some(i) => {
                proof {
                    lemma_scope_lookup_at(bsm, name@, i as int);
                }
                if bindings[i].2 {
                    let out = Environment { bindings, parent };
                    return (
                        out,
                        Result::Err(RuntimeError::ConstAssignment(String::from_str(name))),
                    );
                }
                self_update_binding(&mut bindings, i, name, value);
                proof {
                    lemma_scope_update_at(bsm, name@, value_model(value), i as int);
                    lemma_binding_models(bindings@);
                    assert(binding_models(bindings@) =~= scope_update(
                        bsm,
                        name@,
                        value_model(value),
                    ));
                }
                let out = Environment { bindings, parent };
                (out, Result::Ok(()))
            },
            Option::None => {
                proof {
                    lemma_scope_lookup_none(bsm, name@);
                }
                match parent {
                    Option::Some(p) => {
                        let (newp, r) = Self::set_owned(*p, name, value);
                        let out = Environment {
                            bindings,
                            parent: Option::Some(Box::new(newp)),
                        };
                        (out, r)
                    },
                    Option::None => {
                        let out = Environment { bindings, parent: Option::None };
                        (
                            out,
                            Result::Err(
                                RuntimeError::UndefinedVariable(String::from_str(name)),
                            ),
                        )
                    },
                }
            },
        }
    }

    /// Assigns to the nearest binding of `name`. Assigning to a constant
    /// fails, naming the constant; so does assigning to an unbound name.
    pub fn set(&mut self, name: &str, value: Value) -> (r: Result<(), RuntimeError>)
        ensures
            match envs_set(env_model(*old(self)), name@, value_model(value)) {
                Result::Ok(m) => r is Ok && env_model(*final(self)) == m,
                Result::Err(es) => r matches Err(e) && err_model(e) == es && env_model(
                    *final(self),
                ) == env_model(*old(self)),
            },
    {
        let mut tmp = Environment { bindings: Vec::new(), parent: Option::None };
        core::mem::swap(&mut tmp, self);
        let (out, r) = Self::set_owned(tmp, name, value);
        let mut out = out;
        core::mem::swap(&mut out, self);
        r
    }
}

/// Replaces the binding at `i` with one for the same (non-constant) name.
fn self_update_binding(bindings: &mut Vec<(String, Value, bool)>, i: usize, name: &str, value: Value)
    requires
        i < old(bindings)@.len(),
    ensures
        final(bindings)@.len() == old(bindings)@.len(),
        forall|j: int|
            0 <= j < old(bindings)@.len() && j != i ==> #[trigger] final(bindings)@[j] == old(
                bindings,
            )@[j],
        final(bindings)@[i as int].0@ == name@,
        value_model(final(bindings)@[i as int].1) == value_model(value),
        final(bindings)@[i as int].2 == false,
{
    bindings.set(i, (String::from_str(name), value, false));
}

} // verus!
