//! The operators on values.

use crate::builtins::position_of;
use crate::heap::Heap;
use crate::number::{compute, lawful, model_of, NumberOp, NumberReply, NumberRequest};
use crate::objects::{lemma_values_index, lemma_values_len, Object, Value};
use crate::semantics::{
    binary_value, index_value, number_op, operands_differ, operands_equal, prefix_value,
    truth_denied, RuntimeError,
};
use crate::text::{chars_of, string_of};
use crate::token::TokenKind;
use vstd::prelude::*;

verus! {

/// What `r` is as a value or a failure.
pub open spec fn result_view(r: Result<Object, RuntimeError>) -> Result<Value, RuntimeError> {
    match r {
        Ok(o) => Ok(o.view()),
        Err(x) => Err(x),
    }
}

fn deny<'p>(v: &Object<'p>) -> (r: Result<Object<'p>, RuntimeError>)
    ensures
        result_view(r) == truth_denied(v.view()),
{
    match v {
        Object::Boolean(b) => Ok(Object::Boolean(!*b)),
        Object::Nil => Ok(Object::Boolean(true)),
        Object::Number(n) => Ok(Object::Boolean(n.zero())),
        Object::String(s) => Ok(Object::Boolean(s.as_str().unicode_len() == 0)),
        Object::ReturnValue(inner) => {
            proof {
                reveal_with_fuel(Object::view, 2);
            }
            match &**inner {
                Object::Boolean(b) => Ok(Object::Boolean(!*b)),
                Object::Nil => Ok(Object::Boolean(true)),
                Object::Number(n) => Ok(Object::Boolean(n.zero())),
                Object::String(s) => Ok(Object::Boolean(s.as_str().unicode_len() == 0)),
                _ => Err(RuntimeError::TypeMismatch),
            }
        },
        _ => Err(RuntimeError::TypeMismatch),
    }
}

/// What the prefix operator `op` gives for `v`.
pub fn prefix<'p>(op: TokenKind, v: Object<'p>) -> (r: Result<Object<'p>, RuntimeError>)
    ensures
        result_view(r) == prefix_value(op, v.view()),
{
    match op {
        TokenKind::Minus => match v {
            Object::Number(n) => Ok(Object::Number(n.negate())),
            _ => Err(RuntimeError::TypeMismatch),
        },
        TokenKind::Plus => match v {
            Object::Number(n) => Ok(Object::Number(n)),
            _ => Err(RuntimeError::TypeMismatch),
        },
        TokenKind::Bang => deny(&v),
        _ => Err(RuntimeError::TypeMismatch),
    }
}

/// The rounding operation that `op` stands for.
pub fn operation(op: TokenKind) -> (r: Option<NumberOp>)
    ensures
        r == number_op(op),
{
    match op {
        TokenKind::Plus | TokenKind::PlusSelf => Some(NumberOp::Add),
        TokenKind::Minus | TokenKind::MinusSelf => Some(NumberOp::Subtract),
        TokenKind::Star | TokenKind::StarSelf => Some(NumberOp::Multiply),
        TokenKind::Slash | TokenKind::SlashSelf => Some(NumberOp::Divide),
        TokenKind::Mod | TokenKind::ModSelf => Some(NumberOp::Remainder),
        _ => None,
    }
}

fn equal(l: &Object, r: &Object) -> (b: bool)
    ensures
        b == operands_equal(l.view(), r.view()),
{
    match (l, r) {
        (Object::Number(a), Object::Number(b)) => a.eq_number(b),
        (Object::Boolean(a), Object::Boolean(b)) => *a == *b,
        (Object::String(a), Object::String(b)) => *a == *b,
        (Object::Nil, Object::Nil) => true,
        _ => false,
    }
}

fn differ(l: &Object, r: &Object) -> (b: bool)
    ensures
        b == operands_differ(l.view(), r.view()),
{
    match (l, r) {
        (Object::Number(a), Object::Number(b)) => !a.eq_number(b),
        (Object::Boolean(a), Object::Boolean(b)) => *a != *b,
        (Object::String(a), Object::String(b)) => !(*a == *b),
        (Object::Nil, Object::Nil) => false,
        _ => true,
    }
}

/// What the binary operator `op` gives for `l` and `r`.
pub fn binary<'p, K: Fn(NumberRequest) -> NumberReply>(
    op: TokenKind,
    l: &Object<'p>,
    r: &Object<'p>,
    numbers: &K,
) -> (res: Result<Object<'p>, RuntimeError>)
    requires
        lawful(numbers),
    ensures
        result_view(res) == binary_value(op, l.view(), r.view(), model_of(numbers)),
{
    match op {
        TokenKind::EqualEqual => Ok(Object::Boolean(equal(l, r))),
        TokenKind::BangEqual => Ok(Object::Boolean(differ(l, r))),
        TokenKind::Less | TokenKind::LessEqual | TokenKind::Greater | TokenKind::GreaterEqual =>
            match (l, r) {
                (Object::Number(a), Object::Number(b)) => {
                    let v = if op == TokenKind::Less {
                        a.lt(b)
                    } else if op == TokenKind::LessEqual {
                        a.lt(b) || a.eq_number(b)
                    } else if op == TokenKind::Greater {
                        b.lt(a)
                    } else {
                        b.lt(a) || a.eq_number(b)
                    };
                    Ok(Object::Boolean(v))
                },
                _ => Err(RuntimeError::TypeMismatch),
            },
        TokenKind::Plus => match (l, r) {
            (Object::Number(a), Object::Number(b)) => Ok(
                Object::Number(compute(numbers, NumberOp::Add, *a, *b)),
            ),
            (Object::String(a), Object::String(b)) => {
                let mut s = a.clone();
                s.append(b.as_str());
                Ok(Object::String(s))
            },
            _ => Err(RuntimeError::TypeMismatch),
        },
        TokenKind::Minus | TokenKind::Star | TokenKind::Slash | TokenKind::Mod => match (l, r) {
            (Object::Number(a), Object::Number(b)) => match operation(op) {
                Some(o) => Ok(Object::Number(compute(numbers, o, *a, *b))),
                None => Err(RuntimeError::TypeMismatch),
            },
            _ => Err(RuntimeError::TypeMismatch),
        },
        TokenKind::And => match (l, r) {
            (Object::Boolean(a), Object::Boolean(b)) => Ok(Object::Boolean(*a && *b)),
            _ => Err(RuntimeError::TypeMismatch),
        },
        TokenKind::Or => match (l, r) {
            (Object::Boolean(a), Object::Boolean(b)) => Ok(Object::Boolean(*a || *b)),
            _ => Err(RuntimeError::TypeMismatch),
        },
        _ => Err(RuntimeError::TypeMismatch),
    }
}

fn place<'p>(v: &Object<'p>) -> (r: Option<usize>)
    ensures
        r == position_of(v.view()),
{
    match v {
        Object::Number(n) => Some(n.to_index()),
        Object::Index(i) => Some(*i),
        _ => None,
    }
}

/// What indexing `target` by `index` gives.
pub fn element<'p>(target: &Object<'p>, at: &Object<'p>, heap: &Heap<'p>) -> (r: Result<
    Object<'p>,
    RuntimeError,
>)
    ensures
        result_view(r) == index_value(target.view(), at.view(), heap.view()),
{
    match target {
        Object::Array(a) => {
            proof {
                lemma_values_len(a@);
            }
            match place(at) {
                Some(i) => {
                    if i < a.len() {
                        proof {
                            lemma_values_index(a@, i as int);
                        }
                        Ok(a[i].duplicate())
                    } else {
                        Err(RuntimeError::IndexOutOfRange)
                    }
                },
                None => Ok(Object::Nil),
            }
        },
        Object::Hash(h) => match heap.hash_get(*h, at) {
            Some(v) => Ok(v),
            None => Ok(Object::Nil),
        },
        Object::String(s) => match at {
            Object::String(_) => Err(RuntimeError::TypeMismatch),
            _ => match place(at) {
                Some(i) => {
                    let v = chars_of(s.as_str());
                    if i < v.len() {
                        let one = string_of(&v, i, i + 1);
                        assert(one@ =~= seq![s@[i as int]]);
                        Ok(Object::String(one))
                    } else {
                        Ok(Object::Nil)
                    }
                },
                None => Ok(Object::Nil),
            },
        },
        _ => Err(RuntimeError::TypeMismatch),
    }
}

} // verus!
