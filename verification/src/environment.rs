//! The environment: a mapping from names to values with a parent-linked
//! chain of lexical scopes. Each environment exclusively owns its parent;
//! closures snapshot the defining environment by value, so later mutations
//! of the defining scope are not visible through a closure, and a named
//! function cannot resolve its own name from within its body.
//!
//! The model (`SpecEnv`) mirrors the chain exactly; `sp_define`,
//! `sp_assign` and `sp_lookup` define the operations, and the executable
//! methods are proved to match them.

use vstd::prelude::*;
use vstd::string::StringExecFns;

use crate::interpreter::BuiltInFunction;
use crate::interpreter::NativeFn;
use crate::interpreter::RuntimeError;
use crate::interpreter::RuntimeVal;
use crate::interpreter::SpecRtErr;
use crate::interpreter::SpecVal;
use crate::interpreter::clone_val;
use crate::interpreter::deep_rterr;
use crate::interpreter::deep_val;

verus! {

/// One binding: a name, its value, and whether it was declared constant.
#[derive(Debug, PartialEq)]
pub struct Binding {
    pub name: String,
    pub value: RuntimeVal,
    pub constant: bool,
}

/// A lexical scope: its own bindings and an optional enclosing scope.
#[derive(Debug, PartialEq)]
pub struct Environment {
    pub bindings: Vec<Binding>,
    pub parent: Option<Box<Environment>>,
}

/// The model of one binding.
pub struct SpecBinding {
    pub name: Seq<char>,
    pub value: SpecVal,
    pub constant: bool,
}

/// The model of a scope chain.
pub struct SpecEnv {
    pub bindings: Seq<SpecBinding>,
    pub parent: Option<Box<SpecEnv>>,
}

pub open spec fn deep_binding(b: Binding) -> SpecBinding
    decreases b,
{
    SpecBinding { name: b.name@, value: deep_val(b.value), constant: b.constant }
}

pub open spec fn deep_bindings(v: Seq<Binding>) -> Seq<SpecBinding>
    decreases v,
{
    if v.len() == 0 {
        Seq::empty()
    } else {
        deep_bindings(v.drop_last()).push(deep_binding(v.last()))
    }
}

pub open spec fn deep_env(e: Environment) -> SpecEnv
    decreases e,
{
    SpecEnv {
        bindings: deep_bindings(e.bindings@),
        parent: match e.parent {
            Some(p) => Some(Box::new(deep_env(*p))),
            None => None,
        },
    }
}

pub proof fn lemma_deep_bindings_index(v: Seq<Binding>)
    ensures
        deep_bindings(v).len() == v.len(),
        forall|i: int| 0 <= i < v.len() ==> #[trigger] deep_bindings(v)[i] == deep_binding(v[i]),
    decreases v,
{
    if v.len() > 0 {
        lemma_deep_bindings_index(v.drop_last());
    }
}

pub proof fn lemma_deep_bindings_push(v: Seq<Binding>, b: Binding)
    ensures
        deep_bindings(v.push(b)) == deep_bindings(v).push(deep_binding(b)),
{
    assert(v.push(b).drop_last() =~= v);
}

/// The first binding of that name in a frame, if any.
pub open spec fn frame_get(bs: Seq<SpecBinding>, name: Seq<char>) -> Option<SpecBinding>
    decreases bs.len(),
{
    if bs.len() == 0 {
        None
    } else if bs[0].name == name {
        Some(bs[0])
    } else {
        frame_get(bs.drop_first(), name)
    }
}

/// The frame with the first binding of that name replaced; a frame without
/// the name comes back unchanged.
pub open spec fn frame_set(bs: Seq<SpecBinding>, name: Seq<char>, v: SpecVal) -> Seq<SpecBinding>
    decreases bs.len(),
{
    if bs.len() == 0 {
        bs
    } else if bs[0].name == name {
        seq![SpecBinding { name, value: v, constant: bs[0].constant }] + bs.drop_first()
    } else {
        seq![bs[0]] + frame_set(bs.drop_first(), name, v)
    }
}

pub proof fn lemma_frame_get_at(bs: Seq<SpecBinding>, name: Seq<char>, k: int)
    requires
        0 <= k < bs.len(),
        bs[k].name == name,
        forall|j: int| 0 <= j < k ==> (#[trigger] bs[j]).name != name,
    ensures
        frame_get(bs, name) == Some(bs[k]),
    decreases k,
{
    if k > 0 {
        lemma_frame_get_at(bs.drop_first(), name, k - 1);
    }
}

pub proof fn lemma_frame_get_none(bs: Seq<SpecBinding>, name: Seq<char>)
    requires
        forall|j: int| 0 <= j < bs.len() ==> (#[trigger] bs[j]).name != name,
    ensures
        frame_get(bs, name) is None,
    decreases bs.len(),
{
    if bs.len() > 0 {
        lemma_frame_get_none(bs.drop_first(), name);
    }
}

pub proof fn lemma_frame_set_at(bs: Seq<SpecBinding>, name: Seq<char>, v: SpecVal, k: int)
    requires
        0 <= k < bs.len(),
        bs[k].name == name,
        forall|j: int| 0 <= j < k ==> (#[trigger] bs[j]).name != name,
    ensures
        frame_set(bs, name, v) == bs.update(
            k,
            SpecBinding { name, value: v, constant: bs[k].constant },
        ),
    decreases k,
{
    if k == 0 {
        assert(frame_set(bs, name, v) =~= bs.update(
            0,
            SpecBinding { name, value: v, constant: bs[0].constant },
        ));
    } else {
        lemma_frame_set_at(bs.drop_first(), name, v, k - 1);
        assert(frame_set(bs, name, v) =~= bs.update(
            k,
            SpecBinding { name, value: v, constant: bs[k].constant },
        ));
    }
}

/// Lookup walks from the innermost scope outward.
pub open spec fn sp_lookup(env: SpecEnv, name: Seq<char>) -> Option<SpecVal>
    decreases env,
{
    match frame_get(env.bindings, name) {
        Some(b) => Some(b.value),
        None => match env.parent {
            Some(p) => sp_lookup(*p, name),
            None => None,
        },
    }
}

/// The scope owning a name, innermost first.
pub open spec fn sp_resolve(env: SpecEnv, name: Seq<char>) -> Option<SpecEnv>
    decreases env,
{
    if frame_get(env.bindings, name) is Some {
        Some(env)
    } else {
        match env.parent {
            Some(p) => sp_resolve(*p, name),
            None => None,
        }
    }
}

/// Defining adds a binding to this scope alone; a name already bound in
/// this scope is a duplicate definition, whatever the parents hold.
pub open spec fn sp_define(env: SpecEnv, name: Seq<char>, v: SpecVal, constant: bool) -> Result<
    SpecEnv,
    SpecRtErr,
> {
    if frame_get(env.bindings, name) is Some {
        Err(SpecRtErr::DuplicateDefinition { name })
    } else {
        Ok(
            SpecEnv {
                bindings: env.bindings.push(SpecBinding { name, value: v, constant }),
                parent: env.parent,
            },
        )
    }
}

/// Assignment resolves the name through the chain, rejects a constant
/// binding, and replaces the value where the name was found.
pub open spec fn sp_assign(env: SpecEnv, name: Seq<char>, v: SpecVal) -> Result<SpecEnv, SpecRtErr>
    decreases env,
{
    match frame_get(env.bindings, name) {
        Some(b) => if b.constant {
            Err(SpecRtErr::AssignToConstant { name })
        } else {
            Ok(SpecEnv { bindings: frame_set(env.bindings, name, v), parent: env.parent })
        },
        None => match env.parent {
            Some(p) => match sp_assign(*p, name, v) {
                Ok(p2) => Ok(SpecEnv { bindings: env.bindings, parent: Some(Box::new(p2)) }),
                Err(e) => Err(e),
            },
            None => Err(SpecRtErr::UndefinedVariable { name }),
        },
    }
}

/// The global scope, seeded with the constants `true`, `false` and `null`
/// and the built-in `print`.
pub open spec fn sp_default_env() -> SpecEnv {
    SpecEnv {
        bindings: seq![
            SpecBinding { name: "true"@, value: SpecVal::Bool(true), constant: true },
            SpecBinding { name: "false"@, value: SpecVal::Bool(false), constant: true },
            SpecBinding { name: "null"@, value: SpecVal::Null, constant: true },
            SpecBinding {
                name: "print"@,
                value: SpecVal::Builtin(NativeFn::Print),
                constant: true,
            },
        ],
        parent: None,
    }
}

/// Defining a name in a fresh scope succeeds whatever the enclosing
/// scopes bind — a parameter may share its name with an enclosing
/// binding — and the new binding shadows the enclosing one: lookup in
/// the new scope finds the parameter's value.
pub proof fn lemma_parameter_shadowing(parent: SpecEnv, name: Seq<char>, v: SpecVal)
    ensures
        sp_define(
            SpecEnv { bindings: Seq::empty(), parent: Some(Box::new(parent)) },
            name,
            v,
            false,
        ) matches Ok(e2) && sp_lookup(e2, name) == Some(v),
{
    let base = SpecEnv { bindings: Seq::empty(), parent: Some(Box::new(parent)) };
    assert(frame_get(base.bindings, name) is None);
    let bound = Seq::empty().push(SpecBinding { name, value: v, constant: false });
    assert(bound[0] == (SpecBinding { name, value: v, constant: false }));
    assert(frame_get(bound, name) == Some(bound[0]));
}

/// A deep copy of a scope chain, equal to the original in the model.
pub fn clone_env(e: &Environment) -> (r: Environment)
    ensures
        deep_env(r) == deep_env(*e),
    decreases *e,
{
    let mut bs: Vec<Binding> = Vec::new();
    let mut i: usize = 0;
    proof {
        lemma_deep_bindings_index(e.bindings@);
    }
    while i < e.bindings.len()
        invariant
            0 <= i <= e.bindings@.len(),
            deep_bindings(e.bindings@).len() == e.bindings@.len(),
            forall|k: int|
                0 <= k < e.bindings@.len() ==> #[trigger] deep_bindings(e.bindings@)[k]
                    == deep_binding(e.bindings@[k]),
            deep_bindings(bs@) == deep_bindings(e.bindings@).take(i as int),
        decreases e.bindings@.len() - i,
    {
        let b = Binding {
            name: e.bindings[i].name.clone(),
            value: clone_val(&e.bindings[i].value),
            constant: e.bindings[i].constant,
        };
        proof {
            lemma_deep_bindings_push(bs@, b);
            assert(deep_bindings(e.bindings@).take(i as int + 1) =~= deep_bindings(
                e.bindings@,
            ).take(i as int).push(deep_bindings(e.bindings@)[i as int]));
        }
        bs.push(b);
        i = i + 1;
    }
    proof {
        assert(deep_bindings(e.bindings@).take(e.bindings@.len() as int) =~= deep_bindings(
            e.bindings@,
        ));
    }
    let par: Option<Box<Environment>> = match &e.parent {
        Some(p) => Some(Box::new(clone_env(&**p))),
        None => None,
    };
    Environment { bindings: bs, parent: par }
}

impl Environment {
    /// The position of the first binding of that name in this scope's own
    /// frame, if any.
    fn find_own(&self, symbol: &str) -> (r: Option<usize>)
        ensures
            match r {
                Some(k) => {
                    &&& 0 <= k < self.bindings@.len()
                    &&& frame_get(deep_bindings(self.bindings@), symbol@) == Some(
                        deep_binding(self.bindings@[k as int]),
                    )
                    &&& self.bindings@[k as int].name@ == symbol@
                    &&& forall|j: int|
                        0 <= j < k ==> (#[trigger] self.bindings@[j]).name@ != symbol@
                },
                None => frame_get(deep_bindings(self.bindings@), symbol@) is None,
            },
    {
        let n = self.bindings.len();
        let mut i: usize = 0;
        proof {
            lemma_deep_bindings_index(self.bindings@);
        }
        while i < n
            invariant
                0 <= i <= n,
                n == self.bindings@.len(),
                deep_bindings(self.bindings@).len() == n,
                forall|k: int|
                    0 <= k < n ==> #[trigger] deep_bindings(self.bindings@)[k] == deep_binding(
                        self.bindings@[k],
                    ),
                forall|j: int| 0 <= j < i ==> (#[trigger] self.bindings@[j]).name@ != symbol@,
            decreases n - i,
        {
            if str_eq_names(&self.bindings[i].name, symbol) {
                proof {
                    assert forall|j: int|
                        0 <= j < i implies (#[trigger] deep_bindings(self.bindings@)[j]).name
                        != symbol@ by {
                        assert(deep_bindings(self.bindings@)[j] == deep_binding(
                            self.bindings@[j],
                        ));
                    }
                    lemma_frame_get_at(deep_bindings(self.bindings@), symbol@, i as int);
                }
                return Some(i);
            }
            i = i + 1;
        }
        proof {
            assert forall|j: int|
                0 <= j < n implies (#[trigger] deep_bindings(self.bindings@)[j]).name
                != symbol@ by {
                assert(deep_bindings(self.bindings@)[j] == deep_binding(self.bindings@[j]));
            }
            lemma_frame_get_none(deep_bindings(self.bindings@), symbol@);
        }
        None
    }

    /// A fresh global scope, seeded with `true`, `false`, `null` and the
    /// built-in `print`, and with nothing else: this runtime's numbers are
    /// 64-bit integers, so no floating-point constant (a circle ratio, say)
    /// can be seeded.
    pub fn new() -> (r: Environment)
        ensures
            deep_env(r) == sp_default_env(),
    {
        let mut bs: Vec<Binding> = Vec::new();
        proof {
            assert(deep_bindings(bs@) =~= Seq::<SpecBinding>::empty());
        }
        let b0 = Binding {
            name: String::from_str("true"),
            value: RuntimeVal::BoolVal(true),
            constant: true,
        };
        proof {
            lemma_deep_bindings_push(bs@, b0);
        }
        bs.push(b0);
        let b1 = Binding {
            name: String::from_str("false"),
            value: RuntimeVal::BoolVal(false),
            constant: true,
        };
        proof {
            lemma_deep_bindings_push(bs@, b1);
        }
        bs.push(b1);
        let b2 = Binding {
            name: String::from_str("null"),
            value: RuntimeVal::NullVal,
            constant: true,
        };
        proof {
            lemma_deep_bindings_push(bs@, b2);
        }
        bs.push(b2);
        let b3 = Binding {
            name: String::from_str("print"),
            value: RuntimeVal::BuiltInFunction(BuiltInFunction { native: NativeFn::Print }),
            constant: true,
        };
        proof {
            lemma_deep_bindings_push(bs@, b3);
        }
        bs.push(b3);
        let r = Environment { bindings: bs, parent: None };
        proof {
            assert(deep_bindings(r.bindings@) =~= sp_default_env().bindings);
        }
        r
    }

    /// A fresh scope whose parent is the given scope.
    pub fn new_with_parent(parent: Environment) -> (r: Environment)
        ensures
            deep_env(r) == (SpecEnv {
                bindings: Seq::empty(),
                parent: Some(Box::new(deep_env(parent))),
            }),
    {
        let bs: Vec<Binding> = Vec::new();
        proof {
            assert(deep_bindings(bs@) =~= Seq::<SpecBinding>::empty());
        }
        Environment { bindings: bs, parent: Some(Box::new(parent)) }
    }

    /// Defines a name in this scope; a name already defined here is a
    /// duplicate, whatever enclosing scopes hold. Returns the value.
    pub fn set(&mut self, symbol: &str, value: RuntimeVal, is_const: bool) -> (r: Result<
        RuntimeVal,
        RuntimeError,
    >)
        ensures
            ({
                let s = sp_define(deep_env(*old(self)), symbol@, deep_val(value), is_const);
                match r {
                    Ok(v) => {
                        &&& s matches Ok(e2) && deep_env(*final(self)) == e2
                        &&& deep_val(v) == deep_val(value)
                    },
                    Err(er) => {
                        &&& s == Err::<SpecEnv, SpecRtErr>(deep_rterr(er))
                        &&& *final(self) == *old(self)
                    },
                }
            }),
    {
        match self.find_own(symbol) {
            Some(_) => Err(RuntimeError::DuplicateDefinition { name: String::from_str(symbol) }),
            None => {
                let ret = clone_val(&value);
                let b = Binding { name: String::from_str(symbol), value, constant: is_const };
                proof {
                    lemma_deep_bindings_push(self.bindings@, b);
                }
                self.bindings.push(b);
                Ok(ret)
            },
        }
    }

    /// Assigns to a name somewhere in the chain; a constant binding or an
    /// unresolved name is an error. Returns the value.
    pub fn assign(&mut self, symbol: &str, value: RuntimeVal) -> (r: Result<
        RuntimeVal,
        RuntimeError,
    >)
        ensures
            ({
                let s = sp_assign(deep_env(*old(self)), symbol@, deep_val(value));
                match r {
                    Ok(v) => {
                        &&& s matches Ok(e2) && deep_env(*final(self)) == e2
                        &&& deep_val(v) == deep_val(value)
                    },
                    Err(er) => {
                        &&& s == Err::<SpecEnv, SpecRtErr>(deep_rterr(er))
                        &&& deep_env(*final(self)) == deep_env(*old(self))
                    },
                }
            }),
        decreases *old(self),
    {
        match self.find_own(symbol) {
            Some(k) => {
                if self.bindings[k].constant {
                    return Err(RuntimeError::AssignToConstant { name: String::from_str(symbol) });
                }
                let ret = clone_val(&value);
                proof {
                    lemma_deep_bindings_index(self.bindings@);
                    assert forall|j: int|
                        0 <= j < k implies (#[trigger] deep_bindings(self.bindings@)[j]).name
                        != symbol@ by {
                        assert(deep_bindings(self.bindings@)[j] == deep_binding(
                            self.bindings@[j],
                        ));
                        assert(self.bindings@[j].name@ != symbol@);
                    }
                    lemma_frame_set_at(
                        deep_bindings(self.bindings@),
                        symbol@,
                        deep_val(value),
                        k as int,
                    );
                }
                let ghost bs0 = self.bindings@;
                let newb = Binding {
                    name: String::from_str(symbol),
                    value,
                    constant: false,
                };
                self.bindings.set(k, newb);
                proof {
                    lemma_deep_bindings_index(bs0);
                    lemma_deep_bindings_index(self.bindings@);
                    assert(deep_bindings(self.bindings@) =~= deep_bindings(bs0).update(
                        k as int,
                        deep_binding(newb),
                    ));
                }
                Ok(ret)
            },
            None => {
                match self.parent.take() {
                    Some(mut p) => {
                        let res = (&mut *p).assign(symbol, value);
                        self.parent = Some(p);
                        res
                    },
                    None => Err(
                        RuntimeError::UndefinedVariable { name: String::from_str(symbol) },
                    ),
                }
            },
        }
    }

    /// The scope owning a name, walking innermost-first.
    pub fn resolve(&self, symbol: &str) -> (r: Option<&Environment>)
        ensures
            match r {
                Some(e) => sp_resolve(deep_env(*self), symbol@) == Some(deep_env(*e)),
                None => sp_resolve(deep_env(*self), symbol@) is None,
            },
        decreases *self,
    {
        match self.find_own(symbol) {
            Some(_) => Some(self),
            None => match &self.parent {
                Some(p) => p.resolve(symbol),
                None => None,
            },
        }
    }

    /// The value bound to a name, if the chain has one; a copy equal to the
    /// stored value in the model.
    pub fn get(&self, symbol: &str) -> (r: Option<RuntimeVal>)
        ensures
            match r {
                Some(v) => sp_lookup(deep_env(*self), symbol@) == Some(deep_val(v)),
                None => sp_lookup(deep_env(*self), symbol@) is None,
            },
        decreases *self,
    {
        match self.find_own(symbol) {
            Some(k) => Some(clone_val(&self.bindings[k].value)),
            None => match &self.parent {
                Some(p) => p.get(symbol),
                None => None,
            },
        }
    }
}

/// String equality between a binding's name and a sought symbol.
fn str_eq_names(a: &String, b: &str) -> (r: bool)
    ensures
        r == (a@ == b@),
{
    crate::strutil::str_eq(a.as_str(), b)
}

} // verus!
