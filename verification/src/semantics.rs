//! What a program does: the meaning of expressions and statements as
//! functions from one state of the world to the next.
//!
//! Every loop iteration and every call takes one unit of fuel, so every
//! run ends: with a value, with a failure, or out of fuel.

use crate::ast::{ExprView, LiteralView, StmtView};
use crate::builtins::{builtin_named, builtin_output, builtin_result};
use crate::display::{signed_decimal, value_text};
use crate::envs::{
    empty_scope, env_get, env_receiver, env_set, env_set_store, env_with_receiver, lookup, Scopes,
};
use crate::heap::{same_key, Entries, HeapModel, InstanceModel};
use crate::number::{Arithmetic, NumberOp};
use crate::objects::Value;
use crate::text::decimal;
use crate::token::TokenKind;
use vstd::prelude::*;

pub mod capture;
pub mod hygiene;

verus! {

/// Why a run ended before its end. The shell turns each into exit code 70.
#[derive(Debug, Clone, Copy, PartialEq, Eq, Structural)]
pub enum RuntimeError {
    /// A name that nothing binds.
    UndefinedVariable,
    /// An operand of a kind that the operator does not take.
    TypeMismatch,
    /// A builtin called with the wrong number of arguments.
    WrongArity,
    /// An assertion whose condition was false.
    AssertionFailed,
    /// A call of what is neither function nor builtin.
    NotCallable,
    /// A call of a method that the instance does not have.
    NoSuchMethod,
    /// `this` outside a method call.
    NoReceiver,
    /// An array index past the end of the array.
    IndexOutOfRange,
    /// The fuel ran out.
    StepLimit,
    /// A statement where it cannot stand.
    Unsupported,
}

/// The state of the world between two steps of a run.
pub struct World {
    pub scopes: Scopes,
    pub heap: HeapModel,
    /// What has been written so far.
    pub output: Seq<char>,
    /// How many loop iterations and calls the run may still make.
    pub fuel: nat,
    /// How many calls are under way.
    pub depth: nat,
}

/// What does not change during a run.
pub struct Rules {
    /// Whether a `return` at the top level writes its value.
    pub verbose: bool,
    pub arithmetic: Arithmetic,
}

/// The world after a step, and what the step gave.
pub struct Outcome<T> {
    pub world: World,
    pub result: Result<T, RuntimeError>,
}

pub open spec fn done<T>(world: World, value: T) -> Outcome<T> {
    Outcome { world, result: Ok(value) }
}

pub open spec fn failed<T>(world: World, error: RuntimeError) -> Outcome<T> {
    Outcome { world, result: Err(error) }
}

/// `o`, with no more fuel than `before` had.
pub open spec fn limited<T>(before: World, o: Outcome<T>) -> Outcome<T> {
    if o.world.fuel <= before.fuel {
        o
    } else {
        Outcome { world: World { fuel: before.fuel, ..o.world }, result: o.result }
    }
}

impl World {
    /// The world with `text` written.
    pub open spec fn write(self, text: Seq<char>) -> World {
        World { output: self.output + text, ..self }
    }

    /// The world with one unit of fuel less.
    pub open spec fn burn(self) -> World {
        World { fuel: (self.fuel - 1) as nat, ..self }
    }

    /// The world with a new innermost scope.
    pub open spec fn enter(self) -> World {
        World { scopes: self.scopes.push(empty_scope()), ..self }
    }

    /// The world without its innermost scope, unless it is the only one.
    pub open spec fn leave(self) -> World {
        if self.scopes.len() > 1 {
            World { scopes: self.scopes.drop_last(), ..self }
        } else {
            self
        }
    }

    /// The world after a call has ended: without the scope of the call,
    /// and with one call less under way.
    pub open spec fn returned(self) -> World {
        World {
            depth: if self.depth > 0 {
                (self.depth - 1) as nat
            } else {
                0
            },
            ..self.leave()
        }
    }

    pub open spec fn with_scopes(self, scopes: Scopes) -> World {
        World { scopes, ..self }
    }

    pub open spec fn with_heap(self, heap: HeapModel) -> World {
        World { heap, ..self }
    }

    /// The printed form of `v` in this world.
    pub open spec fn text(self, v: Value, r: Rules) -> Seq<char> {
        value_text(v, self.heap, r.arithmetic.format)
    }
}

/// The value a flow stands for as the value of an `if`: a returning
/// value on its way out, or nil.
pub open spec fn flow_value(flow: Option<Value>) -> Value {
    match flow {
        Some(v) => Value::ReturnValue(Box::new(v)),
        None => Value::Nil,
    }
}

/// The value of a call: what its body returned, or nil.
pub open spec fn call_value(flow: Option<Value>) -> Value {
    match flow {
        Some(v) => v,
        None => Value::Nil,
    }
}

/// What a prefix operator gives.
pub open spec fn prefix_value(op: TokenKind, v: Value) -> Result<Value, RuntimeError> {
    match op {
        TokenKind::Minus => match v {
            Value::Number(n) => Ok(Value::Number(n.negated())),
            _ => Err(RuntimeError::TypeMismatch),
        },
        TokenKind::Plus => match v {
            Value::Number(n) => Ok(v),
            _ => Err(RuntimeError::TypeMismatch),
        },
        TokenKind::Bang => truth_denied(v),
        _ => Err(RuntimeError::TypeMismatch),
    }
}

/// What `!` gives: the opposite of a boolean, true for nil, for the
/// number zero and for the empty string.
pub open spec fn truth_denied(v: Value) -> Result<Value, RuntimeError> {
    match v {
        Value::Boolean(b) => Ok(Value::Boolean(!b)),
        Value::Nil => Ok(Value::Boolean(true)),
        Value::Number(n) => Ok(Value::Boolean(n.is_zero())),
        Value::String(s) => Ok(Value::Boolean(s.len() == 0)),
        Value::ReturnValue(inner) => match *inner {
            Value::Boolean(b) => Ok(Value::Boolean(!b)),
            Value::Nil => Ok(Value::Boolean(true)),
            Value::Number(n) => Ok(Value::Boolean(n.is_zero())),
            Value::String(s) => Ok(Value::Boolean(s.len() == 0)),
            _ => Err(RuntimeError::TypeMismatch),
        },
        _ => Err(RuntimeError::TypeMismatch),
    }
}

/// The rounding operation that an arithmetic operator, or the compound
/// assignment made of it, stands for.
pub open spec fn number_op(op: TokenKind) -> Option<NumberOp> {
    match op {
        TokenKind::Plus | TokenKind::PlusSelf => Some(NumberOp::Add),
        TokenKind::Minus | TokenKind::MinusSelf => Some(NumberOp::Subtract),
        TokenKind::Star | TokenKind::StarSelf => Some(NumberOp::Multiply),
        TokenKind::Slash | TokenKind::SlashSelf => Some(NumberOp::Divide),
        TokenKind::Mod | TokenKind::ModSelf => Some(NumberOp::Remainder),
        _ => None,
    }
}

/// Whether `op` is a compound assignment.
pub open spec fn is_compound(op: TokenKind) -> bool {
    op == TokenKind::PlusSelf || op == TokenKind::MinusSelf || op == TokenKind::StarSelf || op
        == TokenKind::SlashSelf || op == TokenKind::ModSelf
}

/// Whether `==` holds of two operands: equal numbers, booleans or
/// strings, or two nils.
pub open spec fn operands_equal(l: Value, r: Value) -> bool {
    match (l, r) {
        (Value::Number(a), Value::Number(b)) => a.same_as(b),
        (Value::Boolean(a), Value::Boolean(b)) => a == b,
        (Value::String(a), Value::String(b)) => a == b,
        (Value::Nil, Value::Nil) => true,
        _ => false,
    }
}

/// Whether `!=` holds of two operands: of two of one kind among numbers,
/// booleans, strings and nil if they are not equal, of any others always.
pub open spec fn operands_differ(l: Value, r: Value) -> bool {
    match (l, r) {
        (Value::Number(a), Value::Number(b)) => !a.same_as(b),
        (Value::Boolean(a), Value::Boolean(b)) => a != b,
        (Value::String(a), Value::String(b)) => a != b,
        (Value::Nil, Value::Nil) => false,
        _ => true,
    }
}

/// What a binary operator gives for two values.
pub open spec fn binary_value(op: TokenKind, l: Value, r: Value, arithmetic: Arithmetic) -> Result<
    Value,
    RuntimeError,
> {
    match op {
        TokenKind::EqualEqual => Ok(Value::Boolean(operands_equal(l, r))),
        TokenKind::BangEqual => Ok(Value::Boolean(operands_differ(l, r))),
        TokenKind::Less | TokenKind::LessEqual | TokenKind::Greater | TokenKind::GreaterEqual =>
            match (l, r) {
                (Value::Number(a), Value::Number(b)) => Ok(
                    Value::Boolean(
                        if op == TokenKind::Less {
                            a.less_than(b)
                        } else if op == TokenKind::LessEqual {
                            a.less_than(b) || a.same_as(b)
                        } else if op == TokenKind::Greater {
                            b.less_than(a)
                        } else {
                            b.less_than(a) || a.same_as(b)
                        },
                    ),
                ),
                _ => Err(RuntimeError::TypeMismatch),
            },
        TokenKind::Plus => match (l, r) {
            (Value::Number(a), Value::Number(b)) => Ok(
                Value::Number((arithmetic.binary)(NumberOp::Add, a, b)),
            ),
            (Value::String(a), Value::String(b)) => Ok(Value::String(a + b)),
            _ => Err(RuntimeError::TypeMismatch),
        },
        TokenKind::Minus | TokenKind::Star | TokenKind::Slash | TokenKind::Mod => match (l, r) {
            (Value::Number(a), Value::Number(b)) => Ok(
                Value::Number((arithmetic.binary)(number_op(op).unwrap(), a, b)),
            ),
            _ => Err(RuntimeError::TypeMismatch),
        },
        TokenKind::And => match (l, r) {
            (Value::Boolean(a), Value::Boolean(b)) => Ok(Value::Boolean(a && b)),
            _ => Err(RuntimeError::TypeMismatch),
        },
        TokenKind::Or => match (l, r) {
            (Value::Boolean(a), Value::Boolean(b)) => Ok(Value::Boolean(a || b)),
            _ => Err(RuntimeError::TypeMismatch),
        },
        _ => Err(RuntimeError::TypeMismatch),
    }
}

/// What indexing gives: an element of an array, by a position given as
/// an index or as a number; the value of a key of a hash, or nil; one
/// character of a string as a string, or nil past its end.
pub open spec fn index_value(target: Value, index: Value, heap: HeapModel) -> Result<
    Value,
    RuntimeError,
> {
    match target {
        Value::Array(a) => match crate::builtins::position_of(index) {
            Some(i) => if i < a.len() {
                Ok(a[i as int])
            } else {
                Err(RuntimeError::IndexOutOfRange)
            },
            None => Ok(Value::Nil),
        },
        Value::Hash(h) => match crate::heap::entry_get(heap.hash(h), index) {
            Some(v) => Ok(v),
            None => Ok(Value::Nil),
        },
        Value::String(s) => match index {
            Value::String(_) => Err(RuntimeError::TypeMismatch),
            _ => match crate::builtins::position_of(index) {
                Some(i) => if i < s.len() {
                    Ok(Value::String(seq![s[i as int]]))
                } else {
                    Ok(Value::Nil)
                },
                None => Ok(Value::Nil),
            },
        },
        _ => Err(RuntimeError::TypeMismatch),
    }
}

/// The scopes with the parameters `params[i..]` bound in the innermost
/// one to the arguments `args[i..]`; a parameter without an argument is
/// bound to nil.
pub open spec fn bind_parameters(scopes: Scopes, params: Seq<Seq<char>>, args: Seq<Value>, i: int)
    -> Scopes
    decreases params.len() - i,
{
    if i < 0 || i >= params.len() {
        scopes
    } else {
        bind_parameters(
            env_set_store(
                scopes,
                params[i],
                if i < args.len() {
                    args[i]
                } else {
                    Value::Nil
                },
            ),
            params,
            args,
            i + 1,
        )
    }
}

/// What is written when a name is not bound.
pub open spec fn undefined_message(name: Seq<char>) -> Seq<char> {
    "Undefined variable '"@ + name + "'.\n"@
}

/// What is written when a builtin gets the wrong number of arguments.
pub open spec fn arity_message(name: Seq<char>, arity: i32, given: nat) -> Seq<char> {
    "fun "@ + name + ": Expected "@ + signed_decimal(arity as int) + " arguments but got "@
        + decimal(given) + ".\n"@
}

/// The value of the expression `e`.
#[verifier::opaque]
pub open spec fn eval(w: World, e: ExprView, r: Rules) -> Outcome<Value>
    decreases w.fuel, e, 2nat,
{
    match e {
        ExprView::Literal(l) => match l {
            LiteralView::Number(n) => done(w, Value::Number(n)),
            LiteralView::String(s) => done(w, Value::String(s)),
            LiteralView::Bool(b) => done(w, Value::Boolean(b)),
            LiteralView::Index(i) => done(w, Value::Index(i)),
            LiteralView::Nil => done(w, Value::Nil),
            LiteralView::Array(elements) => {
                let a = eval_list(w, elements, 0, Seq::empty(), r);
                match a.result {
                    Ok(vs) => done(a.world, Value::Array(vs)),
                    Err(x) => failed(a.world, x),
                }
            },
            LiteralView::Hash(pairs) => {
                let h = w.heap.hashes.len() as usize;
                let a = eval_entries(w.with_heap(w.heap.with_hash(Seq::empty())), pairs, 0, h, r);
                match a.result {
                    Ok(_) => done(a.world, Value::Hash(h)),
                    Err(x) => failed(a.world, x),
                }
            },
        },
        ExprView::Ident(name) => match builtin_named(name) {
            Some(b) => done(w, b),
            None => match env_get(w.scopes, name) {
                Some(v) => done(w, v),
                None => failed(
                    w.write(undefined_message(name)),
                    RuntimeError::UndefinedVariable,
                ),
            },
        },
        ExprView::ThisExpr(field) => match env_receiver(w.scopes) {
            None => failed(w, RuntimeError::NoReceiver),
            Some(Value::ClassInstance { id, .. }) => done(
                w,
                match lookup(w.heap.fields(id), field) {
                    Some(v) => v,
                    None => Value::Nil,
                },
            ),
            Some(_) => done(w, Value::Nil),
        },
        ExprView::GroupingExpr(inner) => eval(w, *inner, r),
        ExprView::PrefixExpr(op, right) => {
            let a = eval(w, *right, r);
            match a.result {
                Err(x) => failed(a.world, x),
                Ok(v) => match prefix_value(op.kind, v) {
                    Ok(p) => done(a.world, p),
                    Err(x) => failed(a.world, x),
                },
            }
        },
        ExprView::InfixExpr(left, op, right) => if op.kind == TokenKind::Equal {
            assign(w, e, r)
        } else if is_compound(op.kind) {
            match *left {
                ExprView::Ident(name) => {
                    let a = eval(w, *right, r);
                    match a.result {
                        Err(x) => failed(a.world, x),
                        Ok(Value::Number(b)) => match env_get(a.world.scopes, name) {
                            Some(Value::Number(n)) => {
                                let v = Value::Number(
                                    (r.arithmetic.binary)(number_op(op.kind).unwrap(), n, b),
                                );
                                done(a.world.with_scopes(env_set(a.world.scopes, name, v)), v)
                            },
                            Some(_) => failed(a.world, RuntimeError::TypeMismatch),
                            None => failed(a.world, RuntimeError::UndefinedVariable),
                        },
                        Ok(_) => failed(a.world, RuntimeError::TypeMismatch),
                    }
                },
                _ => done(w, Value::Nil),
            }
        } else {
            let a = limited(w, eval(w, *left, r));
            match a.result {
                Err(x) => failed(a.world, x),
                Ok(l) => {
                    let b = eval(a.world, *right, r);
                    match b.result {
                        Err(x) => failed(b.world, x),
                        Ok(v) => match binary_value(op.kind, l, v, r.arithmetic) {
                            Ok(p) => done(b.world, p),
                            Err(x) => failed(b.world, x),
                        },
                    }
                },
            }
        },
        ExprView::PrintExpr(exprs) => {
            let a = print_items(w, exprs, 0, r);
            match a.result {
                Ok(_) => done(a.world, Value::Nil),
                Err(x) => failed(a.world, x),
            }
        },
        ExprView::IndexExpr(target, index) => {
            let a = limited(w, eval(w, *target, r));
            match a.result {
                Err(x) => failed(a.world, x),
                Ok(t) => {
                    let b = eval(a.world, *index, r);
                    match b.result {
                        Err(x) => failed(b.world, x),
                        Ok(i) => match index_value(t, i, b.world.heap) {
                            Ok(v) => done(b.world, v),
                            Err(x) => failed(b.world, x),
                        },
                    }
                },
            }
        },
        ExprView::If { condition, elseif, then_branch, else_branch } => {
            let a = limited(w, eval(w, *condition, r));
            match a.result {
                Err(x) => failed(a.world, x),
                Ok(Value::Boolean(true)) => {
                    let b = run_list(a.world, then_branch, 0, r);
                    match b.result {
                        Ok(flow) => done(b.world, flow_value(flow)),
                        Err(x) => failed(b.world, x),
                    }
                },
                Ok(Value::Boolean(false)) => {
                    let b = limited(a.world, else_ifs(a.world, elseif, 0, r));
                    match b.result {
                        Err(x) => failed(b.world, x),
                        Ok(Some(flow)) => done(b.world, flow_value(flow)),
                        Ok(None) => {
                            let c = run_list(b.world, else_branch, 0, r);
                            match c.result {
                                Ok(flow) => done(c.world, flow_value(flow)),
                                Err(x) => failed(c.world, x),
                            }
                        },
                    }
                },
                Ok(_) => done(a.world, Value::Nil),
            }
        },
        ExprView::Function { params, body } => done(w, Value::Function(params, body)),
        ExprView::Call { callee, args } => {
            let a = limited(w, eval(w, *callee, r));
            match a.result {
                Err(x) => failed(a.world, x),
                Ok(Value::Builtin(name, arity, index)) => {
                    let b = eval_list(a.world, args, 0, Seq::empty(), r);
                    match b.result {
                        Err(x) => failed(b.world, x),
                        Ok(vs) => if arity != -1 && vs.len() != arity {
                            failed(
                                b.world.write(arity_message(name, arity, vs.len())),
                                RuntimeError::WrongArity,
                            )
                        } else {
                            done(
                                World {
                                    output: builtin_output(
                                        b.world.output,
                                        index,
                                        vs,
                                        b.world.heap,
                                        r.arithmetic.format,
                                    ),
                                    ..b.world
                                },
                                builtin_result(index, vs, b.world.heap, r.arithmetic.format),
                            )
                        },
                    }
                },
                Ok(Value::Function(params, body)) => call(a.world, params, body, args, None, r),
                Ok(_) => failed(a.world, RuntimeError::NotCallable),
            }
        },
        ExprView::ClassInit { name, args } => match env_get(w.scopes, name) {
            None => failed(w.write(undefined_message(name)), RuntimeError::UndefinedVariable),
            Some(Value::Class(_, members)) => if w.fuel == 0 {
                failed(w, RuntimeError::StepLimit)
            } else {
                let id = w.heap.instances.len() as usize;
                let instance = Value::ClassInstance { name, id };
                let w1 = w.burn().with_heap(
                    w.heap.with_instance(
                        InstanceModel { fields: Seq::empty(), methods: Seq::empty() },
                    ),
                );
                let a = limited(w1, init_members(w1, members, 0, id, r));
                match a.result {
                    Err(x) => failed(a.world, x),
                    Ok(_) => match lookup(a.world.heap.methods(id), "init"@) {
                        Some(Value::Function(params, body)) => {
                            let b = call(a.world, params, body, args, Some(instance), r);
                            match b.result {
                                Err(x) => failed(b.world, x),
                                Ok(_) => done(b.world, instance),
                            }
                        },
                        _ => done(a.world, instance),
                    },
                }
            },
            Some(_) => done(w, Value::Nil),
        },
        ExprView::ClassCall { callee, method, args } => match env_get(w.scopes, callee) {
            None => failed(w.write(undefined_message(callee)), RuntimeError::UndefinedVariable),
            Some(Value::ClassInstance { name, id }) => match lookup(w.heap.methods(id), method) {
                Some(Value::Function(params, body)) => call(
                    w,
                    params,
                    body,
                    args,
                    Some(Value::ClassInstance { name, id }),
                    r,
                ),
                Some(_) => done(w, Value::Nil),
                None => failed(w, RuntimeError::NoSuchMethod),
            },
            Some(_) => done(w, Value::Nil),
        },
        ExprView::ClassGet { callee, prop } => match env_get(w.scopes, callee) {
            None => failed(w.write(undefined_message(callee)), RuntimeError::UndefinedVariable),
            Some(Value::ClassInstance { id, .. }) => done(
                w,
                match lookup(w.heap.fields(id), prop) {
                    Some(v) => v,
                    None => Value::Nil,
                },
            ),
            Some(other) => done(w, other),
        },
        ExprView::ThisCall { method, args } => match env_receiver(w.scopes) {
            None => failed(w, RuntimeError::NoReceiver),
            Some(Value::ClassInstance { name, id }) => match lookup(w.heap.methods(id), method) {
                Some(Value::Function(params, body)) => call(
                    w,
                    params,
                    body,
                    args,
                    Some(Value::ClassInstance { name, id }),
                    r,
                ),
                Some(_) => done(w, Value::Nil),
                None => failed(w, RuntimeError::NoSuchMethod),
            },
            Some(_) => done(w, Value::Nil),
        },
    }
}

/// The assignment `e`: to a name, by the environment's rule; to a field
/// of the receiver; or to a key of a hash.
#[verifier::opaque]
pub open spec fn assign(w: World, e: ExprView, r: Rules) -> Outcome<Value>
    decreases w.fuel, e, 1nat,
{
    match e {
        ExprView::InfixExpr(left, _, right) => match *left {
            ExprView::Ident(name) => {
                let a = eval(w, *right, r);
                match a.result {
                    Err(x) => failed(a.world, x),
                    Ok(v) => done(a.world.with_scopes(env_set(a.world.scopes, name, v)), v),
                }
            },
            ExprView::ThisExpr(field) => match env_receiver(w.scopes) {
                None => failed(w, RuntimeError::NoReceiver),
                Some(Value::ClassInstance { id, .. }) => {
                    let a = eval(w, *right, r);
                    match a.result {
                        Err(x) => failed(a.world, x),
                        Ok(v) => done(a.world.with_heap(a.world.heap.field_put(id, field, v)), v),
                    }
                },
                Some(other) => done(w, other),
            },
            ExprView::IndexExpr(target, index) => {
                let a = limited(w, eval(w, *target, r));
                match a.result {
                    Err(x) => failed(a.world, x),
                    Ok(Value::Hash(h)) => {
                        let b = limited(a.world, eval(a.world, *index, r));
                        match b.result {
                            Err(x) => failed(b.world, x),
                            Ok(k) => {
                                let c = eval(b.world, *right, r);
                                match c.result {
                                    Err(x) => failed(c.world, x),
                                    Ok(v) => done(
                                        c.world.with_heap(c.world.heap.hash_put(h, k, v)),
                                        v,
                                    ),
                                }
                            },
                        }
                    },
                    Ok(_) => failed(a.world, RuntimeError::TypeMismatch),
                }
            },
            _ => failed(w, RuntimeError::TypeMismatch),
        },
        _ => failed(w, RuntimeError::Unsupported),
    }
}

/// The values of the expressions `es[i..]`, added to `acc`.
#[verifier::opaque]
pub open spec fn eval_list(w: World, es: Seq<ExprView>, i: int, acc: Seq<Value>, r: Rules)
    -> Outcome<Seq<Value>>
    decreases w.fuel, es, es.len() - i,
{
    if i < 0 || i >= es.len() {
        done(w, acc)
    } else {
        let a = limited(w, eval(w, es[i], r));
        match a.result {
            Err(x) => failed(a.world, x),
            Ok(v) => eval_list(a.world, es, i + 1, acc.push(v), r),
        }
    }
}

/// Evaluates the expressions `es[i..]` and writes the printed form of
/// each as it is evaluated.
#[verifier::opaque]
pub open spec fn print_items(w: World, es: Seq<ExprView>, i: int, r: Rules) -> Outcome<()>
    decreases w.fuel, es, es.len() - i,
{
    if i < 0 || i >= es.len() {
        done(w, ())
    } else {
        let a = limited(w, eval(w, es[i], r));
        match a.result {
            Err(x) => failed(a.world, x),
            Ok(v) => print_items(a.world.write(a.world.text(v, r)), es, i + 1, r),
        }
    }
}

/// Evaluates the pairs `pairs[i..]` and enters each into the hash at `h`.
#[verifier::opaque]
pub open spec fn eval_entries(
    w: World,
    pairs: Seq<(ExprView, ExprView)>,
    i: int,
    h: usize,
    r: Rules,
) -> Outcome<()>
    decreases w.fuel, pairs, pairs.len() - i,
{
    if i < 0 || i >= pairs.len() {
        done(w, ())
    } else {
        let a = limited(w, eval(w, pairs[i].0, r));
        match a.result {
            Err(x) => failed(a.world, x),
            Ok(k) => {
                let b = limited(a.world, eval(a.world, pairs[i].1, r));
                match b.result {
                    Err(x) => failed(b.world, x),
                    Ok(v) => eval_entries(
                        b.world.with_heap(b.world.heap.hash_put(h, k, v)),
                        pairs,
                        i + 1,
                        h,
                        r,
                    ),
                }
            },
        }
    }
}

/// The `else if` arms `arms[i..]`: the flow of the first whose condition
/// is true, if there is one.
#[verifier::opaque]
pub open spec fn else_ifs(w: World, arms: Seq<(ExprView, Seq<StmtView>)>, i: int, r: Rules)
    -> Outcome<Option<Option<Value>>>
    decreases w.fuel, arms, arms.len() - i,
{
    if i < 0 || i >= arms.len() {
        done(w, None)
    } else {
        let a = limited(w, eval(w, arms[i].0, r));
        match a.result {
            Err(x) => failed(a.world, x),
            Ok(Value::Boolean(true)) => {
                let b = run_list(a.world, arms[i].1, 0, r);
                match b.result {
                    Ok(flow) => done(b.world, Some(flow)),
                    Err(x) => failed(b.world, x),
                }
            },
            Ok(_) => else_ifs(a.world, arms, i + 1, r),
        }
    }
}

/// A call of the function with the parameters `params` and the body
/// `body`, on the arguments `args`, with `receiver` as receiver if there
/// is one. The arguments are evaluated inside the scope of the call.
#[verifier::opaque]
pub open spec fn call(
    w: World,
    params: Seq<Seq<char>>,
    body: Seq<StmtView>,
    args: Seq<ExprView>,
    receiver: Option<Value>,
    r: Rules,
) -> Outcome<Value>
    decreases w.fuel, args, 0nat,
{
    if w.fuel == 0 {
        failed(w, RuntimeError::StepLimit)
    } else {
        let w1 = World {
            scopes: env_with_receiver(w.scopes.push(empty_scope()), receiver),
            depth: w.depth + 1,
            ..w.burn()
        };
        let a = limited(w1, eval_list(w1, args, 0, Seq::empty(), r));
        match a.result {
            Err(x) => failed(a.world, x),
            Ok(vs) => {
                let w2 = a.world.with_scopes(bind_parameters(a.world.scopes, params, vs, 0));
                let b = run_list(w2, body, 0, r);
                match b.result {
                    Err(x) => failed(b.world, x),
                    Ok(flow) => done(b.world.returned(), call_value(flow)),
                }
            },
        }
    }
}

/// The members `members[i..]` of a class, entered into the instance at
/// `id`: a `var` as a field with the value of its initializer, a function
/// as a method.
#[verifier::opaque]
pub open spec fn init_members(w: World, members: Seq<StmtView>, i: int, id: usize, r: Rules)
    -> Outcome<()>
    decreases w.fuel, members, members.len() - i,
{
    if i < 0 || i >= members.len() {
        done(w, ())
    } else {
        match members[i] {
            StmtView::Var(name, e) => {
                let a = limited(w, eval(w, e, r));
                match a.result {
                    Err(x) => failed(a.world, x),
                    Ok(v) => init_members(
                        a.world.with_heap(a.world.heap.field_put(id, name, v)),
                        members,
                        i + 1,
                        id,
                        r,
                    ),
                }
            },
            StmtView::Function(name, params, body) => init_members(
                w.with_heap(w.heap.method_put(id, name, Value::Function(params, body))),
                members,
                i + 1,
                id,
                r,
            ),
            _ => failed(w, RuntimeError::Unsupported),
        }
    }
}

/// What the statement `s` does. Gives the value on its way out of the
/// enclosing function, if the statement returned one.
#[verifier::opaque]
pub open spec fn run(w: World, s: StmtView, r: Rules) -> Outcome<Option<Value>>
    decreases w.fuel, s, 0nat,
{
    match s {
        StmtView::Blank => done(w, None),
        StmtView::Import(_) => done(w, None),
        StmtView::Var(name, e) => {
            let a = eval(w, e, r);
            match a.result {
                Err(x) => failed(a.world, x),
                Ok(v) => done(a.world.with_scopes(env_set_store(a.world.scopes, name, v)), None),
            }
        },
        StmtView::Expr(e) => {
            let a = eval(w, e, r);
            match a.result {
                Err(x) => failed(a.world, x),
                Ok(Value::ReturnValue(inner)) => done(a.world, Some(*inner)),
                Ok(_) => done(a.world, None),
            }
        },
        StmtView::Block(body) => {
            let a = run_list(w.enter(), body, 0, r);
            match a.result {
                Err(x) => failed(a.world, x),
                Ok(flow) => done(a.world.leave(), flow),
            }
        },
        StmtView::Return(e) => {
            let a = eval(w, e, r);
            match a.result {
                Err(x) => failed(a.world, x),
                Ok(v) => done(
                    if r.verbose && a.world.depth == 0 {
                        a.world.write(a.world.text(v, r)).write("\n"@)
                    } else {
                        a.world
                    },
                    Some(v),
                ),
            }
        },
        StmtView::Function(name, params, body) => done(
            w.with_scopes(env_set_store(w.scopes, name, Value::Function(params, body))),
            None,
        ),
        StmtView::ClassStmt { name, properties } => done(
            w.with_scopes(env_set(w.scopes, name, Value::Class(name, properties))),
            None,
        ),
        StmtView::Switch(e, arms) => {
            let a = limited(w, eval(w, e, r));
            match a.result {
                Err(x) => failed(a.world, x),
                Ok(v) => switch_arms(a.world, v, arms, 0, r),
            }
        },
        StmtView::Case(_, _) => failed(w, RuntimeError::Unsupported),
        StmtView::Default(_) => failed(w, RuntimeError::Unsupported),
        StmtView::While(condition, body) => while_loop(w, condition, body, r),
        StmtView::For { init, conditions, step, block } => {
            let a = limited(w, run(w, *init, r));
            match a.result {
                Err(x) => failed(a.world, x),
                Ok(_) => for_loop(a.world, *conditions, *step, block, r),
            }
        },
        StmtView::ForIn { var, iter, block } => match *var {
            StmtView::Var(name, _) => {
                let a = limited(w, eval(w, *iter, r));
                match a.result {
                    Err(x) => failed(a.world, x),
                    Ok(Value::Hash(h)) => for_in_loop(
                        a.world,
                        name,
                        a.world.heap.hash(h),
                        0,
                        block,
                        r,
                    ),
                    Ok(_) => done(a.world, None),
                }
            },
            _ => failed(w, RuntimeError::Unsupported),
        },
        StmtView::Assert { condition, message } => {
            let a = limited(w, eval(w, *condition, r));
            match a.result {
                Err(x) => failed(a.world, x),
                Ok(Value::Boolean(false)) => {
                    let b = eval(a.world, *message, r);
                    match b.result {
                        Err(x) => failed(b.world, x),
                        Ok(m) => failed(
                            b.world.write(b.world.text(m, r)).write("\n"@),
                            RuntimeError::AssertionFailed,
                        ),
                    }
                },
                Ok(_) => done(a.world, None),
            }
        },
        StmtView::Assign(target, value) => if w.fuel == 0 {
            failed(w, RuntimeError::StepLimit)
        } else {
            let a = assign(
                w.burn(),
                ExprView::InfixExpr(
                    Box::new(target),
                    crate::token::TokenView::fixed(TokenKind::Equal),
                    Box::new(value),
                ),
                r,
            );
            match a.result {
                Err(x) => failed(a.world, x),
                Ok(_) => done(a.world, None),
            }
        },
    }
}

/// What the statements `ss[i..]` do, one after the other, up to the
/// first that returns a value.
#[verifier::opaque]
pub open spec fn run_list(w: World, ss: Seq<StmtView>, i: int, r: Rules) -> Outcome<Option<Value>>
    decreases w.fuel, ss, ss.len() - i,
{
    if i < 0 || i >= ss.len() {
        done(w, None)
    } else {
        let a = limited(w, run(w, ss[i], r));
        match a.result {
            Err(x) => failed(a.world, x),
            Ok(Some(v)) => done(a.world, Some(v)),
            Ok(None) => run_list(a.world, ss, i + 1, r),
        }
    }
}

/// The arms `arms[i..]` of a switch on `subject`: the first `case` whose
/// value is the subject, or else the `default`, is run; no other.
#[verifier::opaque]
pub open spec fn switch_arms(w: World, subject: Value, arms: Seq<StmtView>, i: int, r: Rules)
    -> Outcome<Option<Value>>
    decreases w.fuel, arms, arms.len() - i,
{
    if i < 0 || i >= arms.len() {
        done(w, None)
    } else {
        match arms[i] {
            StmtView::Case(e, body) => {
                let a = limited(w, eval(w, e, r));
                match a.result {
                    Err(x) => failed(a.world, x),
                    Ok(v) => if same_key(v, subject) {
                        run_list(a.world, body, 0, r)
                    } else {
                        switch_arms(a.world, subject, arms, i + 1, r)
                    },
                }
            },
            StmtView::Default(body) => run_list(w, body, 0, r),
            _ => failed(w, RuntimeError::Unsupported),
        }
    }
}

/// A `while` loop. Each iteration runs the body in a scope of its own.
#[verifier::opaque]
pub open spec fn while_loop(w: World, condition: ExprView, body: Seq<StmtView>, r: Rules)
    -> Outcome<Option<Value>>
    decreases w.fuel, body, 1nat,
{
    if w.fuel == 0 {
        failed(w, RuntimeError::StepLimit)
    } else {
        let w1 = w.burn();
        let a = limited(w1, eval(w1, condition, r));
        match a.result {
            Err(x) => failed(a.world, x),
            Ok(Value::Boolean(true)) => {
                let b = limited(a.world, run_list(a.world.enter(), body, 0, r));
                match b.result {
                    Err(x) => failed(b.world, x),
                    Ok(Some(v)) => done(b.world.leave(), Some(v)),
                    Ok(None) => while_loop(b.world.leave(), condition, body, r),
                }
            },
            Ok(Value::Boolean(false)) => done(a.world, None),
            Ok(_) => failed(a.world, RuntimeError::TypeMismatch),
        }
    }
}

/// A `for` loop after its initializer. Each iteration runs the body in a
/// scope of its own, and then the step.
#[verifier::opaque]
pub open spec fn for_loop(
    w: World,
    condition: ExprView,
    step: StmtView,
    body: Seq<StmtView>,
    r: Rules,
) -> Outcome<Option<Value>>
    decreases w.fuel, body, 1nat,
{
    if w.fuel == 0 {
        failed(w, RuntimeError::StepLimit)
    } else {
        let w1 = w.burn();
        let a = limited(w1, eval(w1, condition, r));
        match a.result {
            Err(x) => failed(a.world, x),
            Ok(Value::Boolean(true)) => {
                let b = limited(a.world, run_list(a.world.enter(), body, 0, r));
                match b.result {
                    Err(x) => failed(b.world, x),
                    Ok(Some(v)) => done(b.world.leave(), Some(v)),
                    Ok(None) => {
                        let c = limited(b.world, run(b.world.leave(), step, r));
                        match c.result {
                            Err(x) => failed(c.world, x),
                            Ok(_) => for_loop(c.world, condition, step, body, r),
                        }
                    },
                }
            },
            Ok(Value::Boolean(false)) => done(a.world, None),
            Ok(_) => failed(a.world, RuntimeError::TypeMismatch),
        }
    }
}

/// A `for ... in` loop over the keys of `entries[i..]`, the entries that
/// the hash had when the loop began.
#[verifier::opaque]
pub open spec fn for_in_loop(
    w: World,
    name: Seq<char>,
    entries: Entries,
    i: int,
    body: Seq<StmtView>,
    r: Rules,
) -> Outcome<Option<Value>>
    decreases w.fuel, body, 1nat,
{
    if i < 0 || i >= entries.len() {
        done(w, None)
    } else if w.fuel == 0 {
        failed(w, RuntimeError::StepLimit)
    } else {
        let w1 = w.burn().enter();
        let w2 = w1.with_scopes(env_set_store(w1.scopes, name, entries[i].0));
        let a = limited(w2, run_list(w2, body, 0, r));
        match a.result {
            Err(x) => failed(a.world, x),
            Ok(Some(v)) => done(a.world.leave(), Some(v)),
            Ok(None) => for_in_loop(a.world.leave(), name, entries, i + 1, body, r),
        }
    }
}

/// What the statements `ss[i..]` of a program do, one after the other.
/// A value returned at the top level ends nothing: the next statement is
/// run all the same. A failure ends the run.
pub open spec fn run_program(w: World, ss: Seq<StmtView>, i: int, r: Rules) -> Outcome<()>
    decreases ss.len() - i,
{
    if i < 0 || i >= ss.len() {
        done(w, ())
    } else {
        let a = run(w, ss[i], r);
        match a.result {
            Err(x) => failed(a.world, x),
            Ok(_) => run_program(a.world, ss, i + 1, r),
        }
    }
}

} // verus!
