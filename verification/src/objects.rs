//! Run-time values.

use crate::ast::{idents_view, stmts_view, Ident, Stmt, StmtView};
use crate::number::Number;
use vstd::prelude::*;

verus! {

broadcast use {vstd::std_specs::vec::group_vec_axioms, vstd::seq::group_seq_axioms};

/// A value of the language.
///
/// Hashes and class instances live in the evaluator's heap and are values
/// by reference: the value holds the place in the heap. Functions and
/// classes refer to the program they were defined in.
#[derive(Debug, PartialEq)]
pub enum Object<'p> {
    Boolean(bool),
    Nil,
    Number(Number),
    /// An integer, as indexing and some builtins use it.
    Index(usize),
    String(String),
    Array(Vec<Object<'p>>),
    /// A value on its way out of the function that returned it.
    ReturnValue(Box<Object<'p>>),
    /// The hash at this place in the heap.
    Hash(usize),
    /// The builtin of this name and arity (-1: any), at this place in the
    /// registry.
    Builtin(String, i32, usize),
    Function(&'p Vec<Ident>, &'p Vec<Stmt>),
    Class(String, &'p Vec<Stmt>),
    /// The instance at this place in the heap, of the class of this name.
    ClassInstance { name: String, id: usize },
    /// Compiled code: a range of the instruction vector.
    CompiledFunction { start: usize, len: usize, num_locals: usize, num_parameters: usize },
    /// A compiled function with the values it captured.
    Closure { func: usize, free_vars: Vec<Object<'p>> },
}

/// The mathematical value of an [`Object`].
pub enum Value {
    Boolean(bool),
    Nil,
    Number(Number),
    Index(usize),
    String(Seq<char>),
    Array(Seq<Value>),
    ReturnValue(Box<Value>),
    Hash(usize),
    Builtin(Seq<char>, i32, usize),
    Function(Seq<Seq<char>>, Seq<StmtView>),
    Class(Seq<char>, Seq<StmtView>),
    ClassInstance { name: Seq<char>, id: usize },
    CompiledFunction { start: usize, len: usize, num_locals: usize, num_parameters: usize },
    Closure { func: usize, free_vars: Seq<Value> },
}

/// The values of the objects of `v`, in order.
pub open spec fn values(v: Seq<Object>) -> Seq<Value>
    decreases v,
{
    if v.len() == 0 {
        Seq::empty()
    } else {
        values(v.drop_last()).push(v.last().view())
    }
}

impl<'p> Object<'p> {
    pub open spec fn view(&self) -> Value
        decreases self,
    {
        match self {
            Object::Boolean(b) => Value::Boolean(*b),
            Object::Nil => Value::Nil,
            Object::Number(n) => Value::Number(*n),
            Object::Index(i) => Value::Index(*i),
            Object::String(s) => Value::String(s@),
            Object::Array(a) => Value::Array(values(a@)),
            Object::ReturnValue(o) => Value::ReturnValue(Box::new(o.view())),
            Object::Hash(h) => Value::Hash(*h),
            Object::Builtin(name, arity, index) => Value::Builtin(name@, *arity, *index),
            Object::Function(params, body) => Value::Function(
                idents_view(params@),
                stmts_view(body@),
            ),
            Object::Class(name, members) => Value::Class(name@, stmts_view(members@)),
            Object::ClassInstance { name, id } => Value::ClassInstance { name: name@, id: *id },
            Object::CompiledFunction { start, len, num_locals, num_parameters } =>
                Value::CompiledFunction {
                    start: *start,
                    len: *len,
                    num_locals: *num_locals,
                    num_parameters: *num_parameters,
                },
            Object::Closure { func, free_vars } => Value::Closure {
                func: *func,
                free_vars: values(free_vars@),
            },
        }
    }

    /// A copy of this value. Hashes and instances are copied by reference.
    pub fn duplicate(&self) -> (o: Object<'p>)
        ensures
            o.view() == self.view(),
        decreases self,
    {
        match self {
            Object::Boolean(b) => Object::Boolean(*b),
            Object::Nil => Object::Nil,
            Object::Number(n) => Object::Number(*n),
            Object::Index(i) => Object::Index(*i),
            Object::String(s) => Object::String(s.clone()),
            Object::Array(a) => Object::Array(duplicate_all(a)),
            Object::ReturnValue(o) => Object::ReturnValue(Box::new(o.duplicate())),
            Object::Hash(h) => Object::Hash(*h),
            Object::Builtin(name, arity, index) => Object::Builtin(name.clone(), *arity, *index),
            Object::Function(params, body) => Object::Function(*params, *body),
            Object::Class(name, members) => Object::Class(name.clone(), *members),
            Object::ClassInstance { name, id } => Object::ClassInstance {
                name: name.clone(),
                id: *id,
            },
            Object::CompiledFunction { start, len, num_locals, num_parameters } =>
                Object::CompiledFunction {
                    start: *start,
                    len: *len,
                    num_locals: *num_locals,
                    num_parameters: *num_parameters,
                },
            Object::Closure { func, free_vars } => Object::Closure {
                func: *func,
                free_vars: duplicate_all(free_vars),
            },
        }
    }
}

/// Copies of the values of `v`, in order.
pub fn duplicate_all<'p>(v: &Vec<Object<'p>>) -> (r: Vec<Object<'p>>)
    ensures
        values(r@) == values(v@),
    decreases v,
{
    let mut r: Vec<Object<'p>> = Vec::new();
    let mut i: usize = 0;
    while i < v.len()
        invariant
            i <= v.len(),
            values(r@) == values(v@.take(i as int)),
        decreases v.len() - i,
    {
        let o = v[i].duplicate();
        proof {
            lemma_values_push(r@, o);
            lemma_values_push(v@.take(i as int), v@[i as int]);
            assert(v@.take(i + 1) =~= v@.take(i as int).push(v@[i as int]));
        }
        r.push(o);
        i += 1;
    }
    proof {
        assert(v@.take(v.len() as int) =~= v@);
    }
    r
}

pub proof fn lemma_values_push(v: Seq<Object>, o: Object)
    ensures
        values(v.push(o)) == values(v).push(o.view()),
{
    assert(v.push(o).drop_last() =~= v);
}

/// The values of a sequence of objects, place by place.
pub proof fn lemma_values_index(v: Seq<Object>, i: int)
    requires
        0 <= i < v.len(),
    ensures
        values(v).len() == v.len(),
        values(v)[i] == v[i].view(),
    decreases v.len(),
{
    lemma_values_len(v);
    if i < v.len() - 1 {
        lemma_values_index(v.drop_last(), i);
    }
}

pub proof fn lemma_values_len(v: Seq<Object>)
    ensures
        values(v).len() == v.len(),
    decreases v.len(),
{
    if v.len() > 0 {
        lemma_values_len(v.drop_last());
    }
}

/// The values of a sequence of objects are the sequence of their values.
pub proof fn lemma_values_are(v: Seq<Object>, w: Seq<Value>)
    requires
        w.len() == v.len(),
        forall|i: int| 0 <= i < v.len() ==> w[i] == (#[trigger] v[i]).view(),
    ensures
        values(v) == w,
{
    lemma_values_len(v);
    assert forall|i: int| 0 <= i < v.len() implies values(v)[i] == w[i] by {
        lemma_values_index(v, i);
    }
    assert(values(v) =~= w);
}

/// Replacing one object replaces its value.
pub proof fn lemma_values_update(v: Seq<Object>, i: int, o: Object)
    requires
        0 <= i < v.len(),
    ensures
        values(v.update(i, o)) == values(v).update(i, o.view()),
{
    lemma_values_len(v);
    assert forall|j: int| 0 <= j < v.len() implies values(v).update(i, o.view())[j] == (
    #[trigger] v.update(i, o)[j]).view() by {
        lemma_values_index(v, j);
    }
    lemma_values_are(v.update(i, o), values(v).update(i, o.view()));
}

/// The values of a part of a sequence are that part of its values.
pub proof fn lemma_values_subrange(v: Seq<Object>, from: int, to: int)
    requires
        0 <= from <= to <= v.len(),
    ensures
        values(v.subrange(from, to)) == values(v).subrange(from, to),
{
    lemma_values_len(v);
    assert forall|j: int| 0 <= j < to - from implies values(v).subrange(from, to)[j] == (
    #[trigger] v.subrange(from, to)[j]).view() by {
        lemma_values_index(v, from + j);
    }
    lemma_values_are(v.subrange(from, to), values(v).subrange(from, to));
}

} // verus!
