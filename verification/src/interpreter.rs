//! The evaluator: runtime values and the tree walk that produces them.
//!
//! `sp_eval_node` and its companions are the specification: a fueled,
//! spec-level interpreter over model values. The executable evaluator is
//! proved to return exactly what the model says, to leave the environment
//! exactly as the model says, and to emit exactly the output the model
//! says. Fuel bounds only the nesting depth of function calls; a run that
//! exhausts it stops with `RecursionLimit` instead of overflowing the
//! host stack.

use vstd::prelude::*;
use vstd::string::StrSliceExecFns;
use vstd::string::StringExecFns;

use crate::ast::ArrayLiteral;
use crate::ast::CallExpr;
use crate::ast::Condition;
use crate::ast::Expression;
use crate::ast::FunctionDecleration;
use crate::ast::FunctionLiteral;
use crate::ast::Identifier;
use crate::ast::MemberExpr;
use crate::ast::ObjectLiteral;
use crate::ast::Property;
use crate::ast::Statement;
use crate::ast::VariableDecleration;
use crate::environment::Binding;
use crate::ast::SpecExpr;
use crate::ast::SpecNode;
use crate::ast::SpecProp;
use crate::ast::SpecStmt;
use crate::ast::StatementOrExpression;
use crate::ast::clone_idents;
use crate::ast::clone_nodes;
use crate::ast::deep_nodes;
use crate::ast::deep_params;
use crate::environment::Environment;
use crate::environment::SpecEnv;
use crate::environment::clone_env;
use crate::environment::deep_env;
use crate::strutil::i64_dec_str;
use crate::strutil::i64_to_dec;
use crate::strutil::index_lexeme_val;
use crate::strutil::parse_index_lexeme;
use crate::strutil::split_seq;
use crate::strutil::split_string;
use crate::strutil::str_eq;
use crate::strutil::strs_deep;

verus! {

/// The host-provided built-in functions.
#[derive(Debug, Clone, Copy, PartialEq, Eq, Structural)]
pub enum NativeFn {
    /// Renders each argument in display form, in order.
    Print,
}

/// A built-in (native) function value. The built-ins form the closed set
/// `NativeFn`: a host extends them by adding a variant and its evaluation
/// rule, not by handing in an arbitrary callback, which could not be given
/// a model.
#[derive(Debug, PartialEq)]
pub struct BuiltInFunction {
    pub native: NativeFn,
}

/// A user-defined function value: a closure over a snapshot of the
/// environment in which it was defined.
#[derive(Debug, PartialEq)]
pub struct Function {
    pub name: String,
    pub params: Vec<Identifier>,
    pub body: Vec<StatementOrExpression>,
    pub env: Environment,
}

/// A runtime value. Numbers are 64-bit integers; objects keep their keys
/// unique, in insertion order.
#[derive(Debug, PartialEq)]
pub enum RuntimeVal {
    NumberVal(i64),
    StringVal(String),
    BoolVal(bool),
    ArrayVal(Vec<RuntimeVal>),
    ObjectVal(Vec<(String, RuntimeVal)>),
    FunctionVal(Function),
    BuiltInFunction(BuiltInFunction),
    NullVal,
}

/// The model of a runtime value.
pub enum SpecVal {
    Num(i64),
    Str(Seq<char>),
    Bool(bool),
    Arr(Seq<SpecVal>),
    Obj(Seq<(Seq<char>, SpecVal)>),
    Closure { name: Seq<char>, params: Seq<Seq<char>>, body: Seq<SpecNode>, env: Box<SpecEnv> },
    Builtin(NativeFn),
    Null,
}

/// A runtime error, with what it concerns.
#[derive(Debug, PartialEq)]
pub enum RuntimeError {
    UndefinedVariable { name: String },
    DuplicateDefinition { name: String },
    AssignToConstant { name: String },
    DivisionByZero,
    ArityMismatch { expected: usize, found: usize },
    NonBooleanCondition,
    UnknownOperator { op: String },
    InvalidPropertyAccess,
    /// An assignment whose target is not an identifier reached evaluation.
    InvalidAssignmentTarget,
    /// Function calls nested deeper than the evaluation fuel allows.
    RecursionLimit,
}

/// The model of a runtime error.
pub enum SpecRtErr {
    UndefinedVariable { name: Seq<char> },
    DuplicateDefinition { name: Seq<char> },
    AssignToConstant { name: Seq<char> },
    DivisionByZero,
    ArityMismatch { expected: nat, found: nat },
    NonBooleanCondition,
    UnknownOperator { op: Seq<char> },
    InvalidPropertyAccess,
    InvalidAssignmentTarget,
    RecursionLimit,
}

pub open spec fn deep_rterr(e: RuntimeError) -> SpecRtErr {
    match e {
        RuntimeError::UndefinedVariable { name } => SpecRtErr::UndefinedVariable { name: name@ },
        RuntimeError::DuplicateDefinition { name } => SpecRtErr::DuplicateDefinition { name: name@ },
        RuntimeError::AssignToConstant { name } => SpecRtErr::AssignToConstant { name: name@ },
        RuntimeError::DivisionByZero => SpecRtErr::DivisionByZero,
        RuntimeError::ArityMismatch { expected, found } => SpecRtErr::ArityMismatch {
            expected: expected as nat,
            found: found as nat,
        },
        RuntimeError::NonBooleanCondition => SpecRtErr::NonBooleanCondition,
        RuntimeError::UnknownOperator { op } => SpecRtErr::UnknownOperator { op: op@ },
        RuntimeError::InvalidPropertyAccess => SpecRtErr::InvalidPropertyAccess,
        RuntimeError::InvalidAssignmentTarget => SpecRtErr::InvalidAssignmentTarget,
        RuntimeError::RecursionLimit => SpecRtErr::RecursionLimit,
    }
}

pub open spec fn deep_val(v: RuntimeVal) -> SpecVal
    decreases v,
{
    match v {
        RuntimeVal::NumberVal(n) => SpecVal::Num(n),
        RuntimeVal::StringVal(s) => SpecVal::Str(s@),
        RuntimeVal::BoolVal(b) => SpecVal::Bool(b),
        RuntimeVal::ArrayVal(items) => SpecVal::Arr(deep_vals(items@)),
        RuntimeVal::ObjectVal(entries) => SpecVal::Obj(deep_entries(entries@)),
        RuntimeVal::FunctionVal(f) => SpecVal::Closure {
            name: f.name@,
            params: deep_params(f.params@),
            body: deep_nodes(f.body@),
            env: Box::new(deep_env(f.env)),
        },
        RuntimeVal::BuiltInFunction(b) => SpecVal::Builtin(b.native),
        RuntimeVal::NullVal => SpecVal::Null,
    }
}

pub open spec fn deep_vals(v: Seq<RuntimeVal>) -> Seq<SpecVal>
    decreases v,
{
    if v.len() == 0 {
        Seq::empty()
    } else {
        deep_vals(v.drop_last()).push(deep_val(v.last()))
    }
}

pub open spec fn deep_entries(v: Seq<(String, RuntimeVal)>) -> Seq<(Seq<char>, SpecVal)>
    decreases v,
{
    if v.len() == 0 {
        Seq::empty()
    } else {
        deep_entries(v.drop_last()).push((v.last().0@, deep_val(v.last().1)))
    }
}

pub proof fn lemma_deep_vals_index(v: Seq<RuntimeVal>)
    ensures
        deep_vals(v).len() == v.len(),
        forall|i: int| 0 <= i < v.len() ==> #[trigger] deep_vals(v)[i] == deep_val(v[i]),
    decreases v,
{
    if v.len() > 0 {
        lemma_deep_vals_index(v.drop_last());
    }
}

pub proof fn lemma_deep_vals_push(v: Seq<RuntimeVal>, x: RuntimeVal)
    ensures
        deep_vals(v.push(x)) == deep_vals(v).push(deep_val(x)),
{
    assert(v.push(x).drop_last() =~= v);
}

pub proof fn lemma_deep_entries_index(v: Seq<(String, RuntimeVal)>)
    ensures
        deep_entries(v).len() == v.len(),
        forall|i: int|
            0 <= i < v.len() ==> #[trigger] deep_entries(v)[i] == (v[i].0@, deep_val(v[i].1)),
    decreases v,
{
    if v.len() > 0 {
        lemma_deep_entries_index(v.drop_last());
    }
}

pub proof fn lemma_deep_entries_push(v: Seq<(String, RuntimeVal)>, x: (String, RuntimeVal))
    ensures
        deep_entries(v.push(x)) == deep_entries(v).push((x.0@, deep_val(x.1))),
{
    assert(v.push(x).drop_last() =~= v);
}

/// A deep copy of a runtime value, equal to the original in the model.
pub fn clone_val(v: &RuntimeVal) -> (r: RuntimeVal)
    ensures
        deep_val(r) == deep_val(*v),
    decreases *v,
{
    match v {
        RuntimeVal::NumberVal(n) => RuntimeVal::NumberVal(*n),
        RuntimeVal::StringVal(s) => RuntimeVal::StringVal(s.clone()),
        RuntimeVal::BoolVal(b) => RuntimeVal::BoolVal(*b),
        RuntimeVal::ArrayVal(items) => RuntimeVal::ArrayVal(clone_vals(items)),
        RuntimeVal::ObjectVal(entries) => RuntimeVal::ObjectVal(clone_entries(entries)),
        RuntimeVal::FunctionVal(f) => RuntimeVal::FunctionVal(
            Function {
                name: f.name.clone(),
                params: clone_idents(&f.params),
                body: clone_nodes(&f.body),
                env: clone_env(&f.env),
            },
        ),
        RuntimeVal::BuiltInFunction(b) => RuntimeVal::BuiltInFunction(
            BuiltInFunction { native: b.native },
        ),
        RuntimeVal::NullVal => RuntimeVal::NullVal,
    }
}

pub fn clone_vals(items: &Vec<RuntimeVal>) -> (r: Vec<RuntimeVal>)
    ensures
        deep_vals(r@) == deep_vals(items@),
    decreases items@,
{
    let mut r: Vec<RuntimeVal> = Vec::new();
    let mut i: usize = 0;
    proof {
        lemma_deep_vals_index(items@);
    }
    while i < items.len()
        invariant
            0 <= i <= items@.len(),
            deep_vals(items@).len() == items@.len(),
            forall|k: int|
                0 <= k < items@.len() ==> #[trigger] deep_vals(items@)[k] == deep_val(items@[k]),
            deep_vals(r@) == deep_vals(items@).take(i as int),
        decreases items@.len() - i,
    {
        let c = clone_val(&items[i]);
        proof {
            lemma_deep_vals_push(r@, c);
            assert(deep_vals(items@).take(i as int + 1) =~= deep_vals(items@).take(i as int).push(
                deep_vals(items@)[i as int],
            ));
        }
        r.push(c);
        i = i + 1;
    }
    proof {
        assert(deep_vals(items@).take(items@.len() as int) =~= deep_vals(items@));
    }
    r
}

pub fn clone_entries(entries: &Vec<(String, RuntimeVal)>) -> (r: Vec<(String, RuntimeVal)>)
    ensures
        deep_entries(r@) == deep_entries(entries@),
    decreases entries@,
{
    let mut r: Vec<(String, RuntimeVal)> = Vec::new();
    let mut i: usize = 0;
    proof {
        lemma_deep_entries_index(entries@);
    }
    while i < entries.len()
        invariant
            0 <= i <= entries@.len(),
            deep_entries(entries@).len() == entries@.len(),
            forall|k: int|
                0 <= k < entries@.len() ==> #[trigger] deep_entries(entries@)[k] == (
                    entries@[k].0@,
                    deep_val(entries@[k].1),
                ),
            deep_entries(r@) == deep_entries(entries@).take(i as int),
        decreases entries@.len() - i,
    {
        let key = entries[i].0.clone();
        let val = clone_val(&entries[i].1);
        let pair = (key, val);
        proof {
            lemma_deep_entries_push(r@, pair);
            assert(deep_entries(entries@).take(i as int + 1) =~= deep_entries(entries@).take(
                i as int,
            ).push(deep_entries(entries@)[i as int]));
        }
        r.push(pair);
        i = i + 1;
    }
    proof {
        assert(deep_entries(entries@).take(entries@.len() as int) =~= deep_entries(entries@));
    }
    r
}

/// The display form of a value: numbers in decimal, strings verbatim,
/// booleans as `true`/`false`, null as `null`, arrays bracketed and
/// objects braced with their elements' display forms, comma-separated.
/// A user function shows as `unknown`, a built-in as `BuiltInFunction`.
pub open spec fn sp_display(v: SpecVal) -> Seq<char>
    decreases v, 0int, 0int,
{
    match v {
        SpecVal::Num(n) => i64_dec_str(n),
        SpecVal::Str(s) => s,
        SpecVal::Bool(b) => if b {
            "true"@
        } else {
            "false"@
        },
        SpecVal::Arr(items) => "["@ + sp_display_items(items, 0) + "]"@,
        SpecVal::Obj(entries) => "{"@ + sp_display_entries(entries, 0) + "}"@,
        SpecVal::Closure { name, params, body, env } => "unknown"@,
        SpecVal::Builtin(n) => "BuiltInFunction"@,
        SpecVal::Null => "null"@,
    }
}

pub open spec fn sp_display_items(items: Seq<SpecVal>, i: int) -> Seq<char>
    decreases items, items.len() - i, 1int,
{
    if i < 0 || i >= items.len() {
        Seq::empty()
    } else if i == items.len() - 1 {
        sp_display(items[i])
    } else {
        sp_display(items[i]) + ", "@ + sp_display_items(items, i + 1)
    }
}

pub open spec fn sp_display_entries(entries: Seq<(Seq<char>, SpecVal)>, i: int) -> Seq<char>
    decreases entries, entries.len() - i, 1int,
{
    if i < 0 || i >= entries.len() {
        Seq::empty()
    } else if i == entries.len() - 1 {
        entries[i].0 + ": "@ + sp_display(entries[i].1)
    } else {
        entries[i].0 + ": "@ + sp_display(entries[i].1) + ", "@ + sp_display_entries(entries, i + 1)
    }
}

/// The string a value coerces to where an operator accepts strings and
/// numbers alike: strings verbatim, numbers in decimal, nothing else.
pub open spec fn sp_coerce_str(v: SpecVal) -> Option<Seq<char>> {
    match v {
        SpecVal::Str(s) => Some(s),
        SpecVal::Num(n) => Some(i64_dec_str(n)),
        _ => None,
    }
}

/// Arithmetic on two numbers. `+`, `-` and `*` wrap around on 64-bit
/// overflow; `/` and `%` reject a zero divisor, and wrap on the one
/// overflowing dividend/divisor pair. `%` by zero is rejected like `/`
/// because a remainder by zero has no integer value. Any other operator
/// is unknown.
pub open spec fn sp_numeric_binary(l: i64, r: i64, op: Seq<char>) -> Result<SpecVal, SpecRtErr> {
    if op == "+"@ {
        Ok(SpecVal::Num(l.wrapping_add(r)))
    } else if op == "-"@ {
        Ok(SpecVal::Num(l.wrapping_sub(r)))
    } else if op == "*"@ {
        Ok(SpecVal::Num(l.wrapping_mul(r)))
    } else if op == "/"@ {
        if r == 0 {
            Err(SpecRtErr::DivisionByZero)
        } else {
            Ok(
                SpecVal::Num(
                    match l.checked_div(r) {
                        Some(q) => q,
                        None => i64::MIN,
                    },
                ),
            )
        }
    } else if op == "%"@ {
        if r == 0 {
            Err(SpecRtErr::DivisionByZero)
        } else {
            Ok(
                SpecVal::Num(
                    match l.checked_rem(r) {
                        Some(q) => q,
                        None => 0,
                    },
                ),
            )
        }
    } else {
        Err(SpecRtErr::UnknownOperator { op })
    }
}

/// String concatenation under `+`: both operands must coerce to strings,
/// anything else gives null.
pub open spec fn sp_string_concat(a: SpecVal, b: SpecVal) -> SpecVal {
    match (sp_coerce_str(a), sp_coerce_str(b)) {
        (Some(x), Some(y)) => SpecVal::Str(x + y),
        _ => SpecVal::Null,
    }
}

/// String splitting under `/`: the left operand split on every occurrence
/// of the right one; anything that does not coerce gives null.
pub open spec fn sp_string_divide(a: SpecVal, b: SpecVal) -> SpecVal {
    match (sp_coerce_str(a), sp_coerce_str(b)) {
        (Some(x), Some(y)) => SpecVal::Arr(split_seq(x, y).map_values(|p: Seq<char>| SpecVal::Str(p))),
        _ => SpecVal::Null,
    }
}

/// A binary operator: numeric operands use arithmetic; otherwise `+`
/// concatenates and `/` splits where the operands coerce to strings, and
/// every other combination gives null.
pub open spec fn sp_binary(a: SpecVal, b: SpecVal, op: Seq<char>) -> Result<SpecVal, SpecRtErr> {
    if a is Num && b is Num {
        sp_numeric_binary(a->Num_0, b->Num_0, op)
    } else if op == "+"@ {
        Ok(sp_string_concat(a, b))
    } else if op == "/"@ {
        Ok(sp_string_divide(a, b))
    } else {
        Ok(SpecVal::Null)
    }
}

pub open spec fn sp_bool_bool(l: bool, r: bool, op: Seq<char>) -> Result<SpecVal, SpecRtErr> {
    if op == "=="@ {
        Ok(SpecVal::Bool(l == r))
    } else if op == "!="@ {
        Ok(SpecVal::Bool(l != r))
    } else if op == "or"@ {
        Ok(SpecVal::Bool(l || r))
    } else if op == "and"@ {
        Ok(SpecVal::Bool(l && r))
    } else {
        Err(SpecRtErr::UnknownOperator { op })
    }
}

pub open spec fn sp_num_bool(l: i64, r: i64, op: Seq<char>) -> Result<SpecVal, SpecRtErr> {
    if op == "=="@ {
        Ok(SpecVal::Bool(l == r))
    } else if op == "!="@ {
        Ok(SpecVal::Bool(l != r))
    } else {
        Err(SpecRtErr::UnknownOperator { op })
    }
}

pub open spec fn sp_str_bool(l: Seq<char>, r: Seq<char>, op: Seq<char>) -> Result<
    SpecVal,
    SpecRtErr,
> {
    if op == "=="@ {
        Ok(SpecVal::Bool(l == r))
    } else if op == "!="@ {
        Ok(SpecVal::Bool(l != r))
    } else {
        Err(SpecRtErr::UnknownOperator { op })
    }
}

/// A condition operator: booleans compare and combine, numbers and strings
/// compare for equality, and a mixed pair of operand types gives false.
/// An operator unknown for a matched pair of types is an error.
pub open spec fn sp_condition(a: SpecVal, b: SpecVal, op: Seq<char>) -> Result<SpecVal, SpecRtErr> {
    if a is Bool && b is Bool {
        sp_bool_bool(a->Bool_0, b->Bool_0, op)
    } else if a is Num && b is Num {
        sp_num_bool(a->Num_0, b->Num_0, op)
    } else if a is Str && b is Str {
        sp_str_bool(a->Str_0, b->Str_0, op)
    } else {
        Ok(SpecVal::Bool(false))
    }
}

/// The value under a key in an object, if any; keys are unique, so the
/// first match is the match.
pub open spec fn sp_obj_get(entries: Seq<(Seq<char>, SpecVal)>, key: Seq<char>) -> Option<SpecVal>
    decreases entries.len(),
{
    if entries.len() == 0 {
        None
    } else if entries[0].0 == key {
        Some(entries[0].1)
    } else {
        sp_obj_get(entries.drop_first(), key)
    }
}

/// Object entries with a key set: replaced in place where the key exists,
/// appended where it does not — keys stay unique and keep their order.
pub open spec fn sp_obj_upsert(
    entries: Seq<(Seq<char>, SpecVal)>,
    key: Seq<char>,
    v: SpecVal,
) -> Seq<(Seq<char>, SpecVal)>
    decreases entries.len(),
{
    if entries.len() == 0 {
        seq![(key, v)]
    } else if entries[0].0 == key {
        seq![(key, v)] + entries.drop_first()
    } else {
        seq![entries[0]] + sp_obj_upsert(entries.drop_first(), key, v)
    }
}

/// Member access once the object and the property are values. A property
/// that does not coerce to a string is an error; an object returns the
/// value under the key or null; arrays and strings index by a decimal
/// property, out-of-range or non-numeric giving null; any other base
/// value gives null.
pub open spec fn sp_member(obj: SpecVal, propv: SpecVal) -> Result<SpecVal, SpecRtErr> {
    match sp_coerce_str(propv) {
        None => Err(SpecRtErr::InvalidPropertyAccess),
        Some(ps) => match obj {
            SpecVal::Obj(entries) => Ok(
                match sp_obj_get(entries, ps) {
                    Some(v) => v,
                    None => SpecVal::Null,
                },
            ),
            SpecVal::Arr(items) => Ok(
                match index_lexeme_val(ps) {
                    Some(ix) => if ix < items.len() {
                        items[ix as int]
                    } else {
                        SpecVal::Null
                    },
                    None => SpecVal::Null,
                },
            ),
            SpecVal::Str(s) => Ok(
                match index_lexeme_val(ps) {
                    Some(ix) => if ix < s.len() {
                        SpecVal::Str(seq![s[ix as int]])
                    } else {
                        SpecVal::Null
                    },
                    None => SpecVal::Null,
                },
            ),
            _ => Ok(SpecVal::Null),
        },
    }
}

/// What `print` emits: each argument's display form, in order.
pub open spec fn sp_print_args(args: Seq<SpecVal>, i: int) -> Seq<Seq<char>>
    decreases args.len() - i,
{
    if i < 0 || i >= args.len() {
        Seq::empty()
    } else {
        seq![sp_display(args[i])] + sp_print_args(args, i + 1)
    }
}

/// Parameters bound one by one in a fresh call scope; a repeated
/// parameter name is a duplicate definition.
pub open spec fn sp_bind_params(
    env: SpecEnv,
    params: Seq<Seq<char>>,
    args: Seq<SpecVal>,
    i: int,
) -> Result<SpecEnv, SpecRtErr>
    decreases params.len() - i,
{
    if i < 0 || i >= params.len() || i >= args.len() {
        Ok(env)
    } else {
        match crate::environment::sp_define(env, params[i], args[i], false) {
            Ok(e2) => sp_bind_params(e2, params, args, i + 1),
            Err(e) => Err(e),
        }
    }
}

/// The outcome of evaluating one form: the environment after it, the
/// whole output stream after it, and its value or error.
pub struct EvalOut {
    pub env: SpecEnv,
    pub outp: Seq<Seq<char>>,
    pub res: Result<SpecVal, SpecRtErr>,
}

/// The outcome of evaluating a list of expressions left to right.
pub struct EvalSeqOut {
    pub env: SpecEnv,
    pub outp: Seq<Seq<char>>,
    pub res: Result<Seq<SpecVal>, SpecRtErr>,
}

/// The outcome of evaluating an object literal's properties.
pub struct EvalPropsOut {
    pub env: SpecEnv,
    pub outp: Seq<Seq<char>>,
    pub res: Result<Seq<(Seq<char>, SpecVal)>, SpecRtErr>,
}

/// One node.
pub open spec fn sp_eval_node(fuel: nat, n: SpecNode, env: SpecEnv, outp: Seq<Seq<char>>) -> EvalOut
    decreases fuel, n, 0int,
{
    match n {
        SpecNode::Stmt(s) => sp_eval_stmt(fuel, s, env, outp),
        SpecNode::Expr(e) => sp_eval_expr(fuel, e, env, outp),
    }
}

/// A list of nodes in order, giving the last value, or null for an empty
/// list.
pub open spec fn sp_eval_nodes(
    fuel: nat,
    ns: Seq<SpecNode>,
    i: int,
    env: SpecEnv,
    outp: Seq<Seq<char>>,
    last: SpecVal,
) -> EvalOut
    decreases fuel, ns, ns.len() - i,
{
    if i < 0 || i >= ns.len() {
        EvalOut { env, outp, res: Ok(last) }
    } else {
        let o = sp_eval_node(fuel, ns[i], env, outp);
        match o.res {
            Ok(v) => sp_eval_nodes(fuel, ns, i + 1, o.env, o.outp, v),
            Err(e) => o,
        }
    }
}

/// A statement.
pub open spec fn sp_eval_stmt(fuel: nat, s: SpecStmt, env: SpecEnv, outp: Seq<Seq<char>>) -> EvalOut
    decreases fuel, s, 0int,
{
    match s {
        SpecStmt::Prog(body) => sp_eval_nodes(fuel, body, 0, env, outp, SpecVal::Null),
        SpecStmt::VarDecl { constant, name, init } => match init {
            Some(e) => {
                let o = sp_eval_expr(fuel, e, env, outp);
                match o.res {
                    Ok(v) => match crate::environment::sp_define(o.env, name, v, constant) {
                        Ok(e2) => EvalOut { env: e2, outp: o.outp, res: Ok(v) },
                        Err(er) => EvalOut { env: o.env, outp: o.outp, res: Err(er) },
                    },
                    Err(er) => o,
                }
            },
            None => match crate::environment::sp_define(env, name, SpecVal::Null, constant) {
                Ok(e2) => EvalOut { env: e2, outp, res: Ok(SpecVal::Null) },
                Err(er) => EvalOut { env, outp, res: Err(er) },
            },
        },
        SpecStmt::FnDecl { name, params, body } => {
            let closure = SpecVal::Closure {
                name,
                params,
                body,
                env: Box::new(
                    SpecEnv { bindings: Seq::empty(), parent: Some(Box::new(env)) },
                ),
            };
            match crate::environment::sp_define(env, name, closure, false) {
                Ok(e2) => EvalOut { env: e2, outp, res: Ok(closure) },
                Err(er) => EvalOut { env, outp, res: Err(er) },
            }
        },
        SpecStmt::Branch { test, consequent, alternate } => {
            let o = sp_eval_expr(fuel, *test, env, outp);
            match o.res {
                Ok(tv) => match tv {
                    SpecVal::Bool(b) => if b {
                        sp_eval_nodes(fuel, consequent, 0, o.env, o.outp, SpecVal::Null)
                    } else {
                        match alternate {
                            Some(alt) => sp_eval_nodes(fuel, alt, 0, o.env, o.outp, SpecVal::Null),
                            None => EvalOut { env: o.env, outp: o.outp, res: Ok(SpecVal::Null) },
                        }
                    },
                    _ => EvalOut { env: o.env, outp: o.outp, res: Err(SpecRtErr::NonBooleanCondition) },
                },
                Err(er) => o,
            }
        },
    }
}

/// Expressions of a list, left to right.
pub open spec fn sp_eval_exprs(
    fuel: nat,
    es: Seq<SpecExpr>,
    i: int,
    env: SpecEnv,
    outp: Seq<Seq<char>>,
    acc: Seq<SpecVal>,
) -> EvalSeqOut
    decreases fuel, es, es.len() - i,
{
    if i < 0 || i >= es.len() {
        EvalSeqOut { env, outp, res: Ok(acc) }
    } else {
        let o = sp_eval_expr(fuel, es[i], env, outp);
        match o.res {
            Ok(v) => sp_eval_exprs(fuel, es, i + 1, o.env, o.outp, acc.push(v)),
            Err(e) => EvalSeqOut { env: o.env, outp: o.outp, res: Err(e) },
        }
    }
}

/// An object literal's properties, left to right; a shorthand property
/// looks its key up as a variable; a repeated key keeps its place and
/// takes the later value.
pub open spec fn sp_eval_props(
    fuel: nat,
    ps: Seq<SpecProp>,
    i: int,
    env: SpecEnv,
    outp: Seq<Seq<char>>,
    acc: Seq<(Seq<char>, SpecVal)>,
) -> EvalPropsOut
    decreases fuel, ps, ps.len() - i,
{
    if i < 0 || i >= ps.len() {
        EvalPropsOut { env, outp, res: Ok(acc) }
    } else {
        match ps[i].value {
            Some(e) => {
                let o = sp_eval_expr(fuel, e, env, outp);
                match o.res {
                    Ok(v) => sp_eval_props(
                        fuel,
                        ps,
                        i + 1,
                        o.env,
                        o.outp,
                        sp_obj_upsert(acc, ps[i].key, v),
                    ),
                    Err(er) => EvalPropsOut { env: o.env, outp: o.outp, res: Err(er) },
                }
            },
            None => match crate::environment::sp_lookup(env, ps[i].key) {
                Some(v) => sp_eval_props(fuel, ps, i + 1, env, outp, sp_obj_upsert(acc, ps[i].key, v)),
                None => EvalPropsOut {
                    env,
                    outp,
                    res: Err(SpecRtErr::UndefinedVariable { name: ps[i].key }),
                },
            },
        }
    }
}

/// An expression.
pub open spec fn sp_eval_expr(fuel: nat, e: SpecExpr, env: SpecEnv, outp: Seq<Seq<char>>) -> EvalOut
    decreases fuel, e, 0int,
{
    match e {
        SpecExpr::NumLit(n) => EvalOut { env, outp, res: Ok(SpecVal::Num(n)) },
        SpecExpr::StrLit(s) => EvalOut { env, outp, res: Ok(SpecVal::Str(s)) },
        SpecExpr::Ident(name) => match crate::environment::sp_lookup(env, name) {
            Some(v) => EvalOut { env, outp, res: Ok(v) },
            None => EvalOut { env, outp, res: Err(SpecRtErr::UndefinedVariable { name }) },
        },
        SpecExpr::Bin { operator, left, right } => {
            let o1 = sp_eval_expr(fuel, *left, env, outp);
            match o1.res {
                Ok(lv) => {
                    let o2 = sp_eval_expr(fuel, *right, o1.env, o1.outp);
                    match o2.res {
                        Ok(rv) => EvalOut {
                            env: o2.env,
                            outp: o2.outp,
                            res: sp_binary(lv, rv, operator),
                        },
                        Err(er) => o2,
                    }
                },
                Err(er) => o1,
            }
        },
        SpecExpr::Cond { operator, left, right } => {
            let o1 = sp_eval_expr(fuel, *left, env, outp);
            match o1.res {
                Ok(lv) => {
                    let o2 = sp_eval_expr(fuel, *right, o1.env, o1.outp);
                    match o2.res {
                        Ok(rv) => EvalOut {
                            env: o2.env,
                            outp: o2.outp,
                            res: sp_condition(lv, rv, operator),
                        },
                        Err(er) => o2,
                    }
                },
                Err(er) => o1,
            }
        },
        SpecExpr::Assign { assignee, value } => match *assignee {
            SpecExpr::Ident(name) => {
                let o = sp_eval_expr(fuel, *value, env, outp);
                match o.res {
                    Ok(v) => match crate::environment::sp_assign(o.env, name, v) {
                        Ok(e2) => EvalOut { env: e2, outp: o.outp, res: Ok(v) },
                        Err(er) => EvalOut { env: o.env, outp: o.outp, res: Err(er) },
                    },
                    Err(er) => o,
                }
            },
            _ => EvalOut { env, outp, res: Err(SpecRtErr::InvalidAssignmentTarget) },
        },
        SpecExpr::Object(props) => {
            let o = sp_eval_props(fuel, props, 0, env, outp, Seq::empty());
            match o.res {
                Ok(entries) => EvalOut { env: o.env, outp: o.outp, res: Ok(SpecVal::Obj(entries)) },
                Err(er) => EvalOut { env: o.env, outp: o.outp, res: Err(er) },
            }
        },
        SpecExpr::Array(elems) => {
            let o = sp_eval_exprs(fuel, elems, 0, env, outp, Seq::empty());
            match o.res {
                Ok(vals) => EvalOut { env: o.env, outp: o.outp, res: Ok(SpecVal::Arr(vals)) },
                Err(er) => EvalOut { env: o.env, outp: o.outp, res: Err(er) },
            }
        },
        SpecExpr::Member { object, property, computed } => {
            let o1 = sp_eval_expr(fuel, *object, env, outp);
            match o1.res {
                Ok(objv) => if computed {
                    let o2 = sp_eval_expr(fuel, *property, o1.env, o1.outp);
                    match o2.res {
                        Ok(pv) => EvalOut { env: o2.env, outp: o2.outp, res: sp_member(objv, pv) },
                        Err(er) => o2,
                    }
                } else {
                    match *property {
                        SpecExpr::Ident(sym) => EvalOut {
                            env: o1.env,
                            outp: o1.outp,
                            res: sp_member(objv, SpecVal::Str(sym)),
                        },
                        _ => EvalOut {
                            env: o1.env,
                            outp: o1.outp,
                            res: Err(SpecRtErr::InvalidPropertyAccess),
                        },
                    }
                },
                Err(er) => o1,
            }
        },
        SpecExpr::Call { caller, arguments } => {
            let o1 = sp_eval_expr(fuel, *caller, env, outp);
            match o1.res {
                Ok(cv) => {
                    let o2 = sp_eval_exprs(fuel, arguments, 0, o1.env, o1.outp, Seq::empty());
                    match o2.res {
                        Ok(argv) => if fuel == 0 {
                            EvalOut {
                                env: o2.env,
                                outp: o2.outp,
                                res: Err(SpecRtErr::RecursionLimit),
                            }
                        } else {
                            match cv {
                                SpecVal::Closure { name, params, body, env: cenv } => {
                                    if argv.len() != params.len() {
                                        EvalOut {
                                            env: o2.env,
                                            outp: o2.outp,
                                            res: Err(
                                                SpecRtErr::ArityMismatch {
                                                    expected: params.len(),
                                                    found: argv.len(),
                                                },
                                            ),
                                        }
                                    } else {
                                        let base = SpecEnv {
                                            bindings: Seq::empty(),
                                            parent: Some(cenv),
                                        };
                                        match sp_bind_params(base, params, argv, 0) {
                                            Ok(callenv) => {
                                                let o3 = sp_eval_nodes(
                                                    (fuel - 1) as nat,
                                                    body,
                                                    0,
                                                    callenv,
                                                    o2.outp,
                                                    SpecVal::Null,
                                                );
                                                EvalOut { env: o2.env, outp: o3.outp, res: o3.res }
                                            },
                                            Err(er) => EvalOut {
                                                env: o2.env,
                                                outp: o2.outp,
                                                res: Err(er),
                                            },
                                        }
                                    }
                                },
                                SpecVal::Builtin(nf) => match nf {
                                    NativeFn::Print => EvalOut {
                                        env: o2.env,
                                        outp: o2.outp + sp_print_args(argv, 0),
                                        res: Ok(SpecVal::Null),
                                    },
                                },
                                _ => EvalOut { env: o2.env, outp: o2.outp, res: Ok(SpecVal::Null) },
                            }
                        },
                        Err(er) => EvalOut { env: o2.env, outp: o2.outp, res: Err(er) },
                    }
                },
                Err(er) => o1,
            }
        },
        SpecExpr::FnLit { params, body } => EvalOut {
            env,
            outp,
            res: Ok(
                SpecVal::Closure { name: "closure"@, params, body, env: Box::new(env) },
            ),
        },
    }
}

pub proof fn lemma_strs_push(v: Seq<String>, s: String)
    ensures
        strs_deep(v.push(s)) == strs_deep(v).push(s@),
{
    assert(strs_deep(v.push(s)) =~= strs_deep(v).push(s@));
}

fn coerce_to_string(v: &RuntimeVal) -> (r: Option<String>)
    ensures
        match r {
            Some(s) => sp_coerce_str(deep_val(*v)) == Some(s@),
            None => sp_coerce_str(deep_val(*v)) is None,
        },
{
    match v {
        RuntimeVal::StringVal(s) => Some(s.clone()),
        RuntimeVal::NumberVal(n) => Some(i64_to_dec(*n)),
        _ => None,
    }
}

pub fn eval_numeric_binary_expr(left: i64, right: i64, op: &str) -> (r: Result<
    RuntimeVal,
    RuntimeError,
>)
    ensures
        ({
            let s = sp_numeric_binary(left, right, op@);
            match r {
                Ok(v) => s == Ok::<SpecVal, SpecRtErr>(deep_val(v)),
                Err(er) => s == Err::<SpecVal, SpecRtErr>(deep_rterr(er)),
            }
        }),
{
    if str_eq(op, "+") {
        Ok(RuntimeVal::NumberVal(left.wrapping_add(right)))
    } else if str_eq(op, "-") {
        Ok(RuntimeVal::NumberVal(left.wrapping_sub(right)))
    } else if str_eq(op, "*") {
        Ok(RuntimeVal::NumberVal(left.wrapping_mul(right)))
    } else if str_eq(op, "/") {
        if right == 0 {
            Err(RuntimeError::DivisionByZero)
        } else {
            match left.checked_div(right) {
                Some(q) => Ok(RuntimeVal::NumberVal(q)),
                None => Ok(RuntimeVal::NumberVal(i64::MIN)),
            }
        }
    } else if str_eq(op, "%") {
        if right == 0 {
            Err(RuntimeError::DivisionByZero)
        } else {
            match left.checked_rem(right) {
                Some(q) => Ok(RuntimeVal::NumberVal(q)),
                None => Ok(RuntimeVal::NumberVal(0)),
            }
        }
    } else {
        Err(RuntimeError::UnknownOperator { op: String::from_str(op) })
    }
}

pub fn string_concat(raw_left: &RuntimeVal, raw_right: &RuntimeVal) -> (r: RuntimeVal)
    ensures
        deep_val(r) == sp_string_concat(deep_val(*raw_left), deep_val(*raw_right)),
{
    match (coerce_to_string(raw_left), coerce_to_string(raw_right)) {
        (Some(x), Some(y)) => RuntimeVal::StringVal(x.concat(y.as_str())),
        _ => RuntimeVal::NullVal,
    }
}

pub fn string_divide(raw_left: &RuntimeVal, raw_right: &RuntimeVal) -> (r: RuntimeVal)
    ensures
        deep_val(r) == sp_string_divide(deep_val(*raw_left), deep_val(*raw_right)),
{
    match (coerce_to_string(raw_left), coerce_to_string(raw_right)) {
        (Some(x), Some(y)) => {
            let parts = split_string(x.as_str(), y.as_str());
            let mut vals: Vec<RuntimeVal> = Vec::new();
            let mut i: usize = 0;
            proof {
                assert(deep_vals(vals@) =~= Seq::<SpecVal>::empty());
            }
            while i < parts.len()
                invariant
                    0 <= i <= parts@.len(),
                    strs_deep(parts@) == split_seq(x@, y@),
                    deep_vals(vals@) =~= split_seq(x@, y@).map_values(
                        |p: Seq<char>| SpecVal::Str(p),
                    ).take(i as int),
                decreases parts@.len() - i,
            {
                let piece = parts[i].clone();
                let sv = RuntimeVal::StringVal(piece);
                proof {
                    lemma_deep_vals_push(vals@, sv);
                    assert(strs_deep(parts@)[i as int] == parts@[i as int]@);
                    assert(split_seq(x@, y@).map_values(|p: Seq<char>| SpecVal::Str(p)).take(
                        i as int + 1,
                    ) =~= split_seq(x@, y@).map_values(|p: Seq<char>| SpecVal::Str(p)).take(
                        i as int,
                    ).push(SpecVal::Str(split_seq(x@, y@)[i as int])));
                }
                vals.push(sv);
                i = i + 1;
            }
            proof {
                assert(split_seq(x@, y@).map_values(|p: Seq<char>| SpecVal::Str(p)).take(
                    parts@.len() as int,
                ) =~= split_seq(x@, y@).map_values(|p: Seq<char>| SpecVal::Str(p)));
            }
            RuntimeVal::ArrayVal(vals)
        },
        _ => RuntimeVal::NullVal,
    }
}

pub fn eval_binary_expr(raw_left: RuntimeVal, raw_right: RuntimeVal, op: &str) -> (r: Result<
    RuntimeVal,
    RuntimeError,
>)
    ensures
        ({
            let s = sp_binary(deep_val(raw_left), deep_val(raw_right), op@);
            match r {
                Ok(v) => s == Ok::<SpecVal, SpecRtErr>(deep_val(v)),
                Err(er) => s == Err::<SpecVal, SpecRtErr>(deep_rterr(er)),
            }
        }),
{
    let both_num = matches!(raw_left, RuntimeVal::NumberVal(_)) && matches!(
        raw_right,
        RuntimeVal::NumberVal(_),
    );
    if both_num {
        match (&raw_left, &raw_right) {
            (RuntimeVal::NumberVal(l), RuntimeVal::NumberVal(r)) => eval_numeric_binary_expr(
                *l,
                *r,
                op,
            ),
            _ => Err(RuntimeError::DivisionByZero),
        }
    } else if str_eq(op, "+") {
        Ok(string_concat(&raw_left, &raw_right))
    } else if str_eq(op, "/") {
        Ok(string_divide(&raw_left, &raw_right))
    } else {
        Ok(RuntimeVal::NullVal)
    }
}

pub fn eval_boolean_expr(left: bool, right: bool, operator: &str) -> (r: Result<
    RuntimeVal,
    RuntimeError,
>)
    ensures
        ({
            let s = sp_bool_bool(left, right, operator@);
            match r {
                Ok(v) => s == Ok::<SpecVal, SpecRtErr>(deep_val(v)),
                Err(er) => s == Err::<SpecVal, SpecRtErr>(deep_rterr(er)),
            }
        }),
{
    if str_eq(operator, "==") {
        Ok(RuntimeVal::BoolVal(left == right))
    } else if str_eq(operator, "!=") {
        Ok(RuntimeVal::BoolVal(left != right))
    } else if str_eq(operator, "or") {
        Ok(RuntimeVal::BoolVal(left || right))
    } else if str_eq(operator, "and") {
        Ok(RuntimeVal::BoolVal(left && right))
    } else {
        Err(RuntimeError::UnknownOperator { op: String::from_str(operator) })
    }
}

pub fn eval_numeric_boolean_expr(left: i64, right: i64, operator: &str) -> (r: Result<
    RuntimeVal,
    RuntimeError,
>)
    ensures
        ({
            let s = sp_num_bool(left, right, operator@);
            match r {
                Ok(v) => s == Ok::<SpecVal, SpecRtErr>(deep_val(v)),
                Err(er) => s == Err::<SpecVal, SpecRtErr>(deep_rterr(er)),
            }
        }),
{
    if str_eq(operator, "==") {
        Ok(RuntimeVal::BoolVal(left == right))
    } else if str_eq(operator, "!=") {
        Ok(RuntimeVal::BoolVal(left != right))
    } else {
        Err(RuntimeError::UnknownOperator { op: String::from_str(operator) })
    }
}

pub fn eval_string_boolean_expr(left: &String, right: &String, operator: &str) -> (r: Result<
    RuntimeVal,
    RuntimeError,
>)
    ensures
        ({
            let s = sp_str_bool(left@, right@, operator@);
            match r {
                Ok(v) => s == Ok::<SpecVal, SpecRtErr>(deep_val(v)),
                Err(er) => s == Err::<SpecVal, SpecRtErr>(deep_rterr(er)),
            }
        }),
{
    if str_eq(operator, "==") {
        Ok(RuntimeVal::BoolVal(str_eq(left.as_str(), right.as_str())))
    } else if str_eq(operator, "!=") {
        Ok(RuntimeVal::BoolVal(!str_eq(left.as_str(), right.as_str())))
    } else {
        Err(RuntimeError::UnknownOperator { op: String::from_str(operator) })
    }
}

/// Condition dispatch once both operands are values.
pub fn eval_condition_values(left: RuntimeVal, right: RuntimeVal, operator: &str) -> (r: Result<
    RuntimeVal,
    RuntimeError,
>)
    ensures
        ({
            let s = sp_condition(deep_val(left), deep_val(right), operator@);
            match r {
                Ok(v) => s == Ok::<SpecVal, SpecRtErr>(deep_val(v)),
                Err(er) => s == Err::<SpecVal, SpecRtErr>(deep_rterr(er)),
            }
        }),
{
    match (&left, &right) {
        (RuntimeVal::BoolVal(l), RuntimeVal::BoolVal(r)) => eval_boolean_expr(*l, *r, operator),
        (RuntimeVal::NumberVal(l), RuntimeVal::NumberVal(r)) => eval_numeric_boolean_expr(
            *l,
            *r,
            operator,
        ),
        (RuntimeVal::StringVal(l), RuntimeVal::StringVal(r)) => eval_string_boolean_expr(
            l,
            r,
            operator,
        ),
        _ => Ok(RuntimeVal::BoolVal(false)),
    }
}

pub proof fn lemma_obj_get_at(es: Seq<(Seq<char>, SpecVal)>, key: Seq<char>, k: int)
    requires
        0 <= k < es.len(),
        es[k].0 == key,
        forall|j: int| 0 <= j < k ==> (#[trigger] es[j]).0 != key,
    ensures
        sp_obj_get(es, key) == Some(es[k].1),
    decreases k,
{
    if k > 0 {
        lemma_obj_get_at(es.drop_first(), key, k - 1);
    }
}

pub proof fn lemma_obj_get_none(es: Seq<(Seq<char>, SpecVal)>, key: Seq<char>)
    requires
        forall|j: int| 0 <= j < es.len() ==> (#[trigger] es[j]).0 != key,
    ensures
        sp_obj_get(es, key) is None,
    decreases es.len(),
{
    if es.len() > 0 {
        lemma_obj_get_none(es.drop_first(), key);
    }
}

pub proof fn lemma_obj_upsert_at(es: Seq<(Seq<char>, SpecVal)>, key: Seq<char>, v: SpecVal, k: int)
    requires
        0 <= k < es.len(),
        es[k].0 == key,
        forall|j: int| 0 <= j < k ==> (#[trigger] es[j]).0 != key,
    ensures
        sp_obj_upsert(es, key, v) == es.update(k, (key, v)),
    decreases k,
{
    if k == 0 {
        assert(sp_obj_upsert(es, key, v) =~= es.update(0, (key, v)));
    } else {
        lemma_obj_upsert_at(es.drop_first(), key, v, k - 1);
        assert(sp_obj_upsert(es, key, v) =~= es.update(k, (key, v)));
    }
}

pub proof fn lemma_obj_upsert_none(es: Seq<(Seq<char>, SpecVal)>, key: Seq<char>, v: SpecVal)
    requires
        forall|j: int| 0 <= j < es.len() ==> (#[trigger] es[j]).0 != key,
    ensures
        sp_obj_upsert(es, key, v) == es.push((key, v)),
    decreases es.len(),
{
    if es.len() == 0 {
        assert(sp_obj_upsert(es, key, v) =~= es.push((key, v)));
    } else {
        lemma_obj_upsert_none(es.drop_first(), key, v);
        assert(sp_obj_upsert(es, key, v) =~= es.push((key, v)));
    }
}

/// The position of the first entry with that key, if any.
fn obj_find(entries: &Vec<(String, RuntimeVal)>, key: &str) -> (r: Option<usize>)
    ensures
        ({
            let es = deep_entries(entries@);
            match r {
                Some(k) => {
                    &&& 0 <= k < entries@.len()
                    &&& es[k as int].0 == key@
                    &&& forall|j: int| 0 <= j < k ==> (#[trigger] es[j]).0 != key@
                },
                None => forall|j: int| 0 <= j < es.len() ==> (#[trigger] es[j]).0 != key@,
            }
        }),
{
    let n = entries.len();
    let mut i: usize = 0;
    proof {
        lemma_deep_entries_index(entries@);
    }
    while i < n
        invariant
            0 <= i <= n,
            n == entries@.len(),
            deep_entries(entries@).len() == n,
            forall|k: int|
                0 <= k < n ==> #[trigger] deep_entries(entries@)[k] == (
                    entries@[k].0@,
                    deep_val(entries@[k].1),
                ),
            forall|j: int| 0 <= j < i ==> (#[trigger] deep_entries(entries@)[j]).0 != key@,
        decreases n - i,
    {
        if str_eq(entries[i].0.as_str(), key) {
            return Some(i);
        }
        i = i + 1;
    }
    None
}

/// Member access once the object and the property are values.
pub fn member_access(obj: RuntimeVal, propv: RuntimeVal) -> (r: Result<RuntimeVal, RuntimeError>)
    ensures
        ({
            let s = sp_member(deep_val(obj), deep_val(propv));
            match r {
                Ok(v) => s == Ok::<SpecVal, SpecRtErr>(deep_val(v)),
                Err(er) => s == Err::<SpecVal, SpecRtErr>(deep_rterr(er)),
            }
        }),
{
    let ps = match coerce_to_string(&propv) {
        Some(ps) => ps,
        None => {
            return Err(RuntimeError::InvalidPropertyAccess);
        },
    };
    match &obj {
        RuntimeVal::ObjectVal(entries) => {
            match obj_find(entries, ps.as_str()) {
                Some(k) => {
                    proof {
                        lemma_deep_entries_index(entries@);
                        lemma_obj_get_at(deep_entries(entries@), ps@, k as int);
                    }
                    Ok(clone_val(&entries[k].1))
                },
                None => {
                    proof {
                        lemma_obj_get_none(deep_entries(entries@), ps@);
                    }
                    Ok(RuntimeVal::NullVal)
                },
            }
        },
        RuntimeVal::ArrayVal(items) => {
            proof {
                lemma_deep_vals_index(items@);
            }
            match parse_index_lexeme(ps.as_str()) {
                Some(ix) => if ix < items.len() {
                    Ok(clone_val(&items[ix]))
                } else {
                    Ok(RuntimeVal::NullVal)
                },
                None => Ok(RuntimeVal::NullVal),
            }
        },
        RuntimeVal::StringVal(s) => {
            match parse_index_lexeme(ps.as_str()) {
                Some(ix) => if ix < s.as_str().unicode_len() {
                    let c = s.as_str().get_char(ix);
                    let mut one = String::new();
                    one.push(c);
                    proof {
                        assert(one@ =~= seq![s@[ix as int]]);
                    }
                    Ok(RuntimeVal::StringVal(one))
                } else {
                    Ok(RuntimeVal::NullVal)
                },
                None => Ok(RuntimeVal::NullVal),
            }
        },
        _ => Ok(RuntimeVal::NullVal),
    }
}

/// The display form of a value, as a string.
pub fn display_val(v: &RuntimeVal) -> (s: String)
    ensures
        s@ == sp_display(deep_val(*v)),
    decreases *v, 0int,
{
    match v {
        RuntimeVal::NumberVal(n) => i64_to_dec(*n),
        RuntimeVal::StringVal(st) => st.clone(),
        RuntimeVal::BoolVal(b) => if *b {
            String::from_str("true")
        } else {
            String::from_str("false")
        },
        RuntimeVal::ArrayVal(items) => {
            let mut s = String::from_str("[");
            proof {
                lemma_deep_vals_index(items@);
            }
            let inner = display_items_from(items, 0);
            s.append(inner.as_str());
            s.append("]");
            proof {
                assert(s@ =~= "["@ + sp_display_items(deep_vals(items@), 0) + "]"@);
            }
            s
        },
        RuntimeVal::ObjectVal(entries) => {
            let mut s = String::from_str("{");
            proof {
                lemma_deep_entries_index(entries@);
            }
            let inner = display_entries_from(entries, 0);
            s.append(inner.as_str());
            s.append("}");
            proof {
                assert(s@ =~= "{"@ + sp_display_entries(deep_entries(entries@), 0) + "}"@);
            }
            s
        },
        RuntimeVal::FunctionVal(f) => String::from_str("unknown"),
        RuntimeVal::BuiltInFunction(b) => String::from_str("BuiltInFunction"),
        RuntimeVal::NullVal => String::from_str("null"),
    }
}

fn display_items_from(items: &Vec<RuntimeVal>, i: usize) -> (s: String)
    ensures
        s@ == sp_display_items(deep_vals(items@), i as int),
    decreases items@, items@.len() - i, 1int,
{
    proof {
        lemma_deep_vals_index(items@);
    }
    let n = items.len();
    if i >= n {
        String::new()
    } else if i == n - 1 {
        display_val(&items[i])
    } else {
        let mut s = display_val(&items[i]);
        s.append(", ");
        let rest = display_items_from(items, i + 1);
        s.append(rest.as_str());
        s
    }
}

fn display_entries_from(entries: &Vec<(String, RuntimeVal)>, i: usize) -> (s: String)
    ensures
        s@ == sp_display_entries(deep_entries(entries@), i as int),
    decreases entries@, entries@.len() - i, 1int,
{
    proof {
        lemma_deep_entries_index(entries@);
    }
    let n = entries.len();
    if i >= n {
        String::new()
    } else if i == n - 1 {
        let mut s = entries[i].0.clone();
        s.append(": ");
        let d = display_val(&entries[i].1);
        s.append(d.as_str());
        s
    } else {
        let mut s = entries[i].0.clone();
        s.append(": ");
        let d = display_val(&entries[i].1);
        s.append(d.as_str());
        s.append(", ");
        let rest = display_entries_from(entries, i + 1);
        s.append(rest.as_str());
        s
    }
}

/// Emits each argument's display form, in order.
fn print_args_from(args: &Vec<RuntimeVal>, i: usize, out: &mut Vec<String>)
    ensures
        strs_deep(final(out)@) == strs_deep(old(out)@) + sp_print_args(deep_vals(args@), i as int),
    decreases args@.len() - i,
{
    proof {
        lemma_deep_vals_index(args@);
    }
    let n = args.len();
    if i >= n {
        proof {
            assert(strs_deep(out@) =~= strs_deep(out@) + sp_print_args(deep_vals(args@), i as int));
        }
        return;
    }
    let d = display_val(&args[i]);
    proof {
        lemma_strs_push(out@, d);
    }
    let ghost out_before = strs_deep(out@);
    out.push(d);
    print_args_from(args, i + 1, out);
    proof {
        assert(strs_deep(out@) =~= out_before + sp_print_args(deep_vals(args@), i as int));
    }
}

/// Replaces the value under a key, or appends the entry where the key is
/// new — keys stay unique, in insertion order.
fn obj_upsert(entries: &mut Vec<(String, RuntimeVal)>, key: String, v: RuntimeVal)
    ensures
        deep_entries(final(entries)@) == sp_obj_upsert(
            deep_entries(old(entries)@),
            key@,
            deep_val(v),
        ),
{
    let ghost gkey = key@;
    let ghost gv = deep_val(v);
    match obj_find(entries, key.as_str()) {
        Some(k) => {
            proof {
                lemma_deep_entries_index(entries@);
                lemma_obj_upsert_at(deep_entries(entries@), gkey, gv, k as int);
            }
            let ghost es0 = entries@;
            let pair = (key, v);
            entries.set(k, pair);
            proof {
                lemma_deep_entries_index(es0);
                lemma_deep_entries_index(entries@);
                assert(deep_entries(entries@) =~= deep_entries(es0).update(k as int, (gkey, gv)));
            }
        },
        None => {
            proof {
                lemma_obj_upsert_none(deep_entries(entries@), gkey, gv);
            }
            let pair = (key, v);
            proof {
                lemma_deep_entries_push(entries@, pair);
            }
            entries.push(pair);
        },
    }
}

/// Binds each parameter to its argument in the call scope; a repeated
/// parameter name is a duplicate definition.
fn bind_params_from(
    params: &Vec<Identifier>,
    args: &Vec<RuntimeVal>,
    i: usize,
    env: &mut Environment,
) -> (r: Result<(), RuntimeError>)
    ensures
        ({
            let s = sp_bind_params(
                deep_env(*old(env)),
                deep_params(params@),
                deep_vals(args@),
                i as int,
            );
            match r {
                Ok(_) => s == Ok::<SpecEnv, SpecRtErr>(deep_env(*final(env))),
                Err(er) => s == Err::<SpecEnv, SpecRtErr>(deep_rterr(er)),
            }
        }),
    decreases params@.len() - i,
{
    proof {
        crate::ast::lemma_deep_params_index(params@);
        lemma_deep_vals_index(args@);
    }
    if i >= params.len() || i >= args.len() {
        return Ok(());
    }
    let av = clone_val(&args[i]);
    match env.set(params[i].symbol.as_str(), av, false) {
        Ok(_) => bind_params_from(params, args, i + 1, env),
        Err(er) => Err(er),
    }
}

/// A name's value from the environment chain; an unresolved name is fatal
/// here, unlike inside member access.
pub fn eval_identifier(symbol: &Identifier, env: &Environment) -> (r: Result<
    RuntimeVal,
    RuntimeError,
>)
    ensures
        ({
            let s = crate::environment::sp_lookup(deep_env(*env), symbol.symbol@);
            match r {
                Ok(v) => s == Some(deep_val(v)),
                Err(er) => s is None && deep_rterr(er) == (SpecRtErr::UndefinedVariable {
                    name: symbol.symbol@,
                }),
            }
        }),
{
    match env.get(symbol.symbol.as_str()) {
        Some(v) => Ok(v),
        None => Err(RuntimeError::UndefinedVariable { name: symbol.symbol.clone() }),
    }
}

/// A node: a statement or an expression.
pub fn eval_node(n: &StatementOrExpression, env: &mut Environment, out: &mut Vec<String>, fuel: u64) -> (r:
    Result<RuntimeVal, RuntimeError>)
    ensures
        ({
            let s = sp_eval_node(
                fuel as nat,
                crate::ast::deep_node(*n),
                deep_env(*old(env)),
                strs_deep(old(out)@),
            );
            &&& s.env == deep_env(*final(env))
            &&& s.outp == strs_deep(final(out)@)
            &&& match r {
                Ok(v) => s.res == Ok::<SpecVal, SpecRtErr>(deep_val(v)),
                Err(er) => s.res == Err::<SpecVal, SpecRtErr>(deep_rterr(er)),
            }
        }),
    decreases fuel, *n, 0int,
{
    match n {
        StatementOrExpression::Statement(s) => eval_stmt(s, env, out, fuel),
        StatementOrExpression::Expression(e) => eval_expr(e, env, out, fuel),
    }
}

/// A list of nodes in order; the value is the last node's, or null.
fn eval_body_from(
    nodes: &Vec<StatementOrExpression>,
    i: usize,
    last: RuntimeVal,
    env: &mut Environment,
    out: &mut Vec<String>,
    fuel: u64,
) -> (r: Result<RuntimeVal, RuntimeError>)
    ensures
        ({
            let s = sp_eval_nodes(
                fuel as nat,
                deep_nodes(nodes@),
                i as int,
                deep_env(*old(env)),
                strs_deep(old(out)@),
                deep_val(last),
            );
            &&& s.env == deep_env(*final(env))
            &&& s.outp == strs_deep(final(out)@)
            &&& match r {
                Ok(v) => s.res == Ok::<SpecVal, SpecRtErr>(deep_val(v)),
                Err(er) => s.res == Err::<SpecVal, SpecRtErr>(deep_rterr(er)),
            }
        }),
    decreases fuel, nodes@, nodes@.len() - i,
{
    proof {
        crate::ast::lemma_deep_nodes_index(nodes@);
    }
    if i >= nodes.len() {
        return Ok(last);
    }
    match eval_node(&nodes[i], env, out, fuel) {
        Ok(v) => eval_body_from(nodes, i + 1, v, env, out, fuel),
        Err(er) => Err(er),
    }
}

/// Expressions of a list, left to right, collecting the values.
fn eval_args_from(
    exprs: &Vec<Expression>,
    i: usize,
    acc: Vec<RuntimeVal>,
    env: &mut Environment,
    out: &mut Vec<String>,
    fuel: u64,
) -> (r: Result<Vec<RuntimeVal>, RuntimeError>)
    ensures
        ({
            let s = sp_eval_exprs(
                fuel as nat,
                crate::ast::deep_exprs(exprs@),
                i as int,
                deep_env(*old(env)),
                strs_deep(old(out)@),
                deep_vals(acc@),
            );
            &&& s.env == deep_env(*final(env))
            &&& s.outp == strs_deep(final(out)@)
            &&& match r {
                Ok(vs) => s.res == Ok::<Seq<SpecVal>, SpecRtErr>(deep_vals(vs@)),
                Err(er) => s.res == Err::<Seq<SpecVal>, SpecRtErr>(deep_rterr(er)),
            }
        }),
    decreases fuel, exprs@, exprs@.len() - i,
{
    proof {
        crate::ast::lemma_deep_exprs_index(exprs@);
    }
    if i >= exprs.len() {
        return Ok(acc);
    }
    match eval_expr(&exprs[i], env, out, fuel) {
        Ok(v) => {
            let mut acc2 = acc;
            proof {
                lemma_deep_vals_push(acc2@, v);
            }
            acc2.push(v);
            eval_args_from(exprs, i + 1, acc2, env, out, fuel)
        },
        Err(er) => Err(er),
    }
}

/// An object literal's properties, left to right.
fn eval_props_from(
    props: &Vec<Property>,
    i: usize,
    acc: Vec<(String, RuntimeVal)>,
    env: &mut Environment,
    out: &mut Vec<String>,
    fuel: u64,
) -> (r: Result<Vec<(String, RuntimeVal)>, RuntimeError>)
    ensures
        ({
            let s = sp_eval_props(
                fuel as nat,
                crate::ast::deep_props(props@),
                i as int,
                deep_env(*old(env)),
                strs_deep(old(out)@),
                deep_entries(acc@),
            );
            &&& s.env == deep_env(*final(env))
            &&& s.outp == strs_deep(final(out)@)
            &&& match r {
                Ok(es) => s.res == Ok::<Seq<(Seq<char>, SpecVal)>, SpecRtErr>(deep_entries(es@)),
                Err(er) => s.res == Err::<Seq<(Seq<char>, SpecVal)>, SpecRtErr>(deep_rterr(er)),
            }
        }),
    decreases fuel, props@, props@.len() - i,
{
    proof {
        crate::ast::lemma_deep_props_index(props@);
    }
    if i >= props.len() {
        return Ok(acc);
    }
    match &props[i].value {
        Some(b) => {
            match eval_expr(&**b, env, out, fuel) {
                Ok(v) => {
                    let mut acc2 = acc;
                    obj_upsert(&mut acc2, props[i].key.clone(), v);
                    eval_props_from(props, i + 1, acc2, env, out, fuel)
                },
                Err(er) => Err(er),
            }
        },
        None => {
            match env.get(props[i].key.as_str()) {
                Some(v) => {
                    let mut acc2 = acc;
                    obj_upsert(&mut acc2, props[i].key.clone(), v);
                    eval_props_from(props, i + 1, acc2, env, out, fuel)
                },
                None => Err(RuntimeError::UndefinedVariable { name: props[i].key.clone() }),
            }
        },
    }
}

/// A member access: the object, then the property (computed or literal),
/// then the lookup or indexing.
pub fn eval_member_expr(m: &MemberExpr, env: &mut Environment, out: &mut Vec<String>, fuel: u64) -> (r:
    Result<RuntimeVal, RuntimeError>)
    ensures
        ({
            let s = sp_eval_expr(
                fuel as nat,
                crate::ast::deep_expr(Expression::Member(*m)),
                deep_env(*old(env)),
                strs_deep(old(out)@),
            );
            &&& s.env == deep_env(*final(env))
            &&& s.outp == strs_deep(final(out)@)
            &&& match r {
                Ok(v) => s.res == Ok::<SpecVal, SpecRtErr>(deep_val(v)),
                Err(er) => s.res == Err::<SpecVal, SpecRtErr>(deep_rterr(er)),
            }
        }),
    decreases fuel, *m, 0int,
{
    let objv = match eval_expr(&*m.object, env, out, fuel) {
        Ok(v) => v,
        Err(er) => {
            return Err(er);
        },
    };
    if m.computed {
        let pv = match eval_expr(&*m.property, env, out, fuel) {
            Ok(v) => v,
            Err(er) => {
                return Err(er);
            },
        };
        member_access(objv, pv)
    } else {
        match &*m.property {
            Expression::Identifier(idn) => {
                proof {
                    assert(crate::ast::deep_expr(*m.property) == SpecExpr::Ident(idn.symbol@));
                }
                member_access(objv, RuntimeVal::StringVal(idn.symbol.clone()))
            },
            _ => {
                proof {
                    assert(!(crate::ast::deep_expr(*m.property) is Ident));
                }
                Err(RuntimeError::InvalidPropertyAccess)
            },
        }
    }
}

/// A call: the callee, then the arguments left to right, then one unit of
/// fuel to enter the function.
#[verifier::rlimit(100)]
pub fn eval_call_expr(c: &CallExpr, env: &mut Environment, out: &mut Vec<String>, fuel: u64) -> (r:
    Result<RuntimeVal, RuntimeError>)
    ensures
        ({
            let s = sp_eval_expr(
                fuel as nat,
                crate::ast::deep_expr(Expression::Call(*c)),
                deep_env(*old(env)),
                strs_deep(old(out)@),
            );
            &&& s.env == deep_env(*final(env))
            &&& s.outp == strs_deep(final(out)@)
            &&& match r {
                Ok(v) => s.res == Ok::<SpecVal, SpecRtErr>(deep_val(v)),
                Err(er) => s.res == Err::<SpecVal, SpecRtErr>(deep_rterr(er)),
            }
        }),
    decreases fuel, *c, 0int,
{
    let callee = match eval_expr(&*c.caller, env, out, fuel) {
        Ok(v) => v,
        Err(er) => {
            return Err(er);
        },
    };
    let argvec: Vec<RuntimeVal> = Vec::new();
    proof {
        assert(deep_vals(argvec@) =~= Seq::<SpecVal>::empty());
    }
    let args = match eval_args_from(&c.arguments, 0, argvec, env, out, fuel) {
        Ok(vs) => vs,
        Err(er) => {
            return Err(er);
        },
    };
    if fuel == 0 {
        return Err(RuntimeError::RecursionLimit);
    }
    match callee {
        RuntimeVal::FunctionVal(f) => {
            if args.len() != f.params.len() {
                proof {
                    crate::ast::lemma_deep_params_index(f.params@);
                    lemma_deep_vals_index(args@);
                }
                return Err(
                    RuntimeError::ArityMismatch { expected: f.params.len(), found: args.len() },
                );
            }
            proof {
                crate::ast::lemma_deep_params_index(f.params@);
                lemma_deep_vals_index(args@);
            }
            let bs: Vec<Binding> = Vec::new();
            proof {
                assert(crate::environment::deep_bindings(bs@) =~= Seq::<
                    crate::environment::SpecBinding,
                >::empty());
            }
            let mut new_env = Environment { bindings: bs, parent: Some(Box::new(f.env)) };
            match bind_params_from(&f.params, &args, 0, &mut new_env) {
                Ok(_) => eval_body_from(&f.body, 0, RuntimeVal::NullVal, &mut new_env, out, fuel - 1),
                Err(er) => Err(er),
            }
        },
        RuntimeVal::BuiltInFunction(b) => match b.native {
            NativeFn::Print => {
                print_args_from(&args, 0, out);
                Ok(RuntimeVal::NullVal)
            },
        },
        _ => Ok(RuntimeVal::NullVal),
    }
}

/// An anonymous function: a closure over a snapshot of the current scope.
pub fn eval_function_literal(func: &FunctionLiteral, env: &Environment) -> (r: RuntimeVal)
    ensures
        deep_val(r) == (SpecVal::Closure {
            name: "closure"@,
            params: deep_params(func.params@),
            body: deep_nodes(func.body@),
            env: Box::new(deep_env(*env)),
        }),
{
    RuntimeVal::FunctionVal(
        Function {
            name: String::from_str("closure"),
            params: clone_idents(&func.params),
            body: clone_nodes(&func.body),
            env: clone_env(env),
        },
    )
}

/// A condition: both operands eagerly, then the comparison.
pub fn eval_conditional_expr(c: &Condition, env: &mut Environment, out: &mut Vec<String>, fuel: u64) -> (r:
    Result<RuntimeVal, RuntimeError>)
    ensures
        ({
            let s = sp_eval_expr(
                fuel as nat,
                crate::ast::deep_expr(Expression::Condition(*c)),
                deep_env(*old(env)),
                strs_deep(old(out)@),
            );
            &&& s.env == deep_env(*final(env))
            &&& s.outp == strs_deep(final(out)@)
            &&& match r {
                Ok(v) => s.res == Ok::<SpecVal, SpecRtErr>(deep_val(v)),
                Err(er) => s.res == Err::<SpecVal, SpecRtErr>(deep_rterr(er)),
            }
        }),
    decreases fuel, *c, 0int,
{
    let lv = match eval_expr(&*c.left, env, out, fuel) {
        Ok(v) => v,
        Err(er) => {
            return Err(er);
        },
    };
    let rv = match eval_expr(&*c.right, env, out, fuel) {
        Ok(v) => v,
        Err(er) => {
            return Err(er);
        },
    };
    eval_condition_values(lv, rv, c.operator.as_str())
}

/// An array literal: its elements, left to right.
pub fn eval_array_expr(array: &ArrayLiteral, env: &mut Environment, out: &mut Vec<String>, fuel: u64) -> (r:
    Result<RuntimeVal, RuntimeError>)
    ensures
        ({
            let s = sp_eval_expr(
                fuel as nat,
                crate::ast::deep_expr(Expression::ArrayLiteral(*array)),
                deep_env(*old(env)),
                strs_deep(old(out)@),
            );
            &&& s.env == deep_env(*final(env))
            &&& s.outp == strs_deep(final(out)@)
            &&& match r {
                Ok(v) => s.res == Ok::<SpecVal, SpecRtErr>(deep_val(v)),
                Err(er) => s.res == Err::<SpecVal, SpecRtErr>(deep_rterr(er)),
            }
        }),
    decreases fuel, *array, 0int,
{
    let acc: Vec<RuntimeVal> = Vec::new();
    proof {
        assert(deep_vals(acc@) =~= Seq::<SpecVal>::empty());
    }
    match eval_args_from(&array.elements, 0, acc, env, out, fuel) {
        Ok(vals) => Ok(RuntimeVal::ArrayVal(vals)),
        Err(er) => Err(er),
    }
}

/// An object literal: its properties, left to right.
pub fn eval_object_expr(obj: &ObjectLiteral, env: &mut Environment, out: &mut Vec<String>, fuel: u64) -> (r:
    Result<RuntimeVal, RuntimeError>)
    ensures
        ({
            let s = sp_eval_expr(
                fuel as nat,
                crate::ast::deep_expr(Expression::ObjectLiteral(*obj)),
                deep_env(*old(env)),
                strs_deep(old(out)@),
            );
            &&& s.env == deep_env(*final(env))
            &&& s.outp == strs_deep(final(out)@)
            &&& match r {
                Ok(v) => s.res == Ok::<SpecVal, SpecRtErr>(deep_val(v)),
                Err(er) => s.res == Err::<SpecVal, SpecRtErr>(deep_rterr(er)),
            }
        }),
    decreases fuel, *obj, 0int,
{
    let acc: Vec<(String, RuntimeVal)> = Vec::new();
    proof {
        assert(deep_entries(acc@) =~= Seq::<(Seq<char>, SpecVal)>::empty());
    }
    match eval_props_from(&obj.properties, 0, acc, env, out, fuel) {
        Ok(entries) => Ok(RuntimeVal::ObjectVal(entries)),
        Err(er) => Err(er),
    }
}

/// An expression.
#[verifier::rlimit(100)]
pub fn eval_expr(expr: &Expression, env: &mut Environment, out: &mut Vec<String>, fuel: u64) -> (r:
    Result<RuntimeVal, RuntimeError>)
    ensures
        ({
            let s = sp_eval_expr(
                fuel as nat,
                crate::ast::deep_expr(*expr),
                deep_env(*old(env)),
                strs_deep(old(out)@),
            );
            &&& s.env == deep_env(*final(env))
            &&& s.outp == strs_deep(final(out)@)
            &&& match r {
                Ok(v) => s.res == Ok::<SpecVal, SpecRtErr>(deep_val(v)),
                Err(er) => s.res == Err::<SpecVal, SpecRtErr>(deep_rterr(er)),
            }
        }),
    decreases fuel, *expr, 0int,
{
    match expr {
        Expression::NumericLiteral(n) => Ok(RuntimeVal::NumberVal(n.value)),
        Expression::StringLiteral(s) => Ok(RuntimeVal::StringVal(s.value.clone())),
        Expression::Identifier(idn) => eval_identifier(idn, env),
        Expression::Binary(b) => {
            let lv = match eval_expr(&*b.left, env, out, fuel) {
                Ok(v) => v,
                Err(er) => {
                    return Err(er);
                },
            };
            let rv = match eval_expr(&*b.right, env, out, fuel) {
                Ok(v) => v,
                Err(er) => {
                    return Err(er);
                },
            };
            eval_binary_expr(lv, rv, b.operator.as_str())
        },
        Expression::Condition(c) => eval_conditional_expr(c, env, out, fuel),
        Expression::Assignment(a) => {
            proof {
                assert(*expr == Expression::Assignment(*a));
            }
            match &*a.assignee {
                Expression::Identifier(idn) => {
                    proof {
                        assert(crate::ast::deep_expr(*a.assignee) == SpecExpr::Ident(
                            idn.symbol@,
                        ));
                    }
                    let v = match eval_expr(&*a.value, env, out, fuel) {
                        Ok(v) => v,
                        Err(er) => {
                            return Err(er);
                        },
                    };
                    match env.assign(idn.symbol.as_str(), v) {
                        Ok(v2) => Ok(v2),
                        Err(er) => Err(er),
                    }
                },
                _ => {
                    proof {
                        assert(!(crate::ast::deep_expr(*a.assignee) is Ident));
                    }
                    Err(RuntimeError::InvalidAssignmentTarget)
                },
            }
        },
        Expression::ObjectLiteral(o) => eval_object_expr(o, env, out, fuel),
        Expression::ArrayLiteral(arr) => eval_array_expr(arr, env, out, fuel),
        Expression::Member(m) => eval_member_expr(m, env, out, fuel),
        Expression::Call(c) => eval_call_expr(c, env, out, fuel),
        Expression::FunctionLiteral(f) => Ok(eval_function_literal(f, env)),
    }
}

/// A variable declaration: the initializer (or null), defined in the
/// current scope.
pub fn eval_var_decleration(var: &VariableDecleration, env: &mut Environment, out: &mut Vec<String>, fuel: u64) -> (r:
    Result<RuntimeVal, RuntimeError>)
    ensures
        ({
            let s = sp_eval_stmt(
                fuel as nat,
                crate::ast::deep_stmt(Statement::VariableDecleration(*var)),
                deep_env(*old(env)),
                strs_deep(old(out)@),
            );
            &&& s.env == deep_env(*final(env))
            &&& s.outp == strs_deep(final(out)@)
            &&& match r {
                Ok(v) => s.res == Ok::<SpecVal, SpecRtErr>(deep_val(v)),
                Err(er) => s.res == Err::<SpecVal, SpecRtErr>(deep_rterr(er)),
            }
        }),
    decreases fuel, *var, 0int,
{
    let value = match &var.value {
        Some(e) => match eval_expr(e, env, out, fuel) {
            Ok(v) => v,
            Err(er) => {
                return Err(er);
            },
        },
        None => RuntimeVal::NullVal,
    };
    match env.set(var.identifier.symbol.as_str(), value, var.constant) {
        Ok(v2) => Ok(v2),
        Err(er) => Err(er),
    }
}

/// A function declaration: a closure whose captured scope is a fresh
/// child of a snapshot of the declaring scope, bound to the function's
/// name in the declaring scope. The snapshot precedes the binding, so the
/// body cannot resolve the function's own name: closures are immutable
/// pictures of scope at creation time.
pub fn eval_function_decleration(raw_func: &FunctionDecleration, env: &mut Environment) -> (r:
    Result<RuntimeVal, RuntimeError>)
    ensures
        ({
            let env0 = deep_env(*old(env));
            let closure = SpecVal::Closure {
                name: raw_func.identifier.symbol@,
                params: deep_params(raw_func.params@),
                body: deep_nodes(raw_func.body@),
                env: Box::new(
                    SpecEnv { bindings: Seq::empty(), parent: Some(Box::new(env0)) },
                ),
            };
            let s = crate::environment::sp_define(
                env0,
                raw_func.identifier.symbol@,
                closure,
                false,
            );
            match r {
                Ok(v) => {
                    &&& s matches Ok(e2) && deep_env(*final(env)) == e2
                    &&& deep_val(v) == closure
                },
                Err(er) => {
                    &&& s == Err::<SpecEnv, SpecRtErr>(deep_rterr(er))
                    &&& deep_env(*final(env)) == env0
                },
            }
        }),
{
    let name = raw_func.get_name();
    let cap = Environment::new_with_parent(clone_env(env));
    let func = RuntimeVal::FunctionVal(
        Function {
            name: name.clone(),
            params: clone_idents(&raw_func.params),
            body: clone_nodes(&raw_func.body),
            env: cap,
        },
    );
    match env.set(name.as_str(), func, false) {
        Ok(v2) => Ok(v2),
        Err(er) => Err(er),
    }
}

/// A statement.
#[verifier::rlimit(100)]
pub fn eval_stmt(stmt: &Statement, env: &mut Environment, out: &mut Vec<String>, fuel: u64) -> (r:
    Result<RuntimeVal, RuntimeError>)
    ensures
        ({
            let s = sp_eval_stmt(
                fuel as nat,
                crate::ast::deep_stmt(*stmt),
                deep_env(*old(env)),
                strs_deep(old(out)@),
            );
            &&& s.env == deep_env(*final(env))
            &&& s.outp == strs_deep(final(out)@)
            &&& match r {
                Ok(v) => s.res == Ok::<SpecVal, SpecRtErr>(deep_val(v)),
                Err(er) => s.res == Err::<SpecVal, SpecRtErr>(deep_rterr(er)),
            }
        }),
    decreases fuel, *stmt, 0int,
{
    match stmt {
        Statement::VariableDecleration(var) => eval_var_decleration(var, env, out, fuel),
        Statement::FunctionDecleration(func) => eval_function_decleration(func, env),
        Statement::Program(p) => eval_body_from(&p.body, 0, RuntimeVal::NullVal, env, out, fuel),
        Statement::If(cond) => {
            let tv = match eval_expr(&*cond.test, env, out, fuel) {
                Ok(v) => v,
                Err(er) => {
                    return Err(er);
                },
            };
            match tv {
                RuntimeVal::BoolVal(b) => {
                    if b {
                        eval_body_from(&cond.consequent, 0, RuntimeVal::NullVal, env, out, fuel)
                    } else {
                        match &cond.alternate {
                            Some(alt) => eval_body_from(
                                alt,
                                0,
                                RuntimeVal::NullVal,
                                env,
                                out,
                                fuel,
                            ),
                            None => Ok(RuntimeVal::NullVal),
                        }
                    }
                },
                _ => Err(RuntimeError::NonBooleanCondition),
            }
        },
    }
}

/// The fuel the one-argument entry point gives a run: the deepest nesting
/// of function calls it will evaluate.
pub const DEFAULT_FUEL: u64 = 1024;

/// Evaluates a node against an environment, appending whatever the run
/// prints to `out`, with the default call-depth fuel.
pub fn evaluate(ast_node: StatementOrExpression, env: &mut Environment, out: &mut Vec<String>) -> (r:
    Result<RuntimeVal, RuntimeError>)
    ensures
        ({
            let s = sp_eval_node(
                DEFAULT_FUEL as nat,
                crate::ast::deep_node(ast_node),
                deep_env(*old(env)),
                strs_deep(old(out)@),
            );
            &&& s.env == deep_env(*final(env))
            &&& s.outp == strs_deep(final(out)@)
            &&& match r {
                Ok(v) => s.res == Ok::<SpecVal, SpecRtErr>(deep_val(v)),
                Err(er) => s.res == Err::<SpecVal, SpecRtErr>(deep_rterr(er)),
            }
        }),
{
    eval_node(&ast_node, env, out, DEFAULT_FUEL)
}

/// Evaluates a node with an explicit call-depth fuel.
pub fn evaluate_with_fuel(
    ast_node: StatementOrExpression,
    env: &mut Environment,
    out: &mut Vec<String>,
    fuel: u64,
) -> (r: Result<RuntimeVal, RuntimeError>)
    ensures
        ({
            let s = sp_eval_node(
                fuel as nat,
                crate::ast::deep_node(ast_node),
                deep_env(*old(env)),
                strs_deep(old(out)@),
            );
            &&& s.env == deep_env(*final(env))
            &&& s.outp == strs_deep(final(out)@)
            &&& match r {
                Ok(v) => s.res == Ok::<SpecVal, SpecRtErr>(deep_val(v)),
                Err(er) => s.res == Err::<SpecVal, SpecRtErr>(deep_rterr(er)),
            }
        }),
{
    eval_node(&ast_node, env, out, fuel)
}

} // verus!
