//! How a function sees its surroundings: by reference.
//!
//! A function value holds its parameters and its body, and nothing of the
//! scopes it was defined in. What its body reads of them it reads when the
//! function is called, so it sees what they hold then.

use super::{call, done, eval, eval_list, run, run_list, Rules, World};
use crate::ast::{ExprView, StmtView};
use crate::builtins::builtin_named;
use crate::envs::{binder, empty_scope, env_get, env_with_receiver, lookup, Scopes};
use crate::objects::Value;
use vstd::prelude::*;

verus! {

/// A function value captures nothing: a function expression gives the
/// same value in every world and leaves the world as it is. What the
/// body reads of the scopes around it, it reads when it is called, so it
/// sees what they hold then.
pub proof fn lemma_function_captures_nothing(
    w: World,
    other: World,
    params: Seq<Seq<char>>,
    body: Seq<StmtView>,
    r: Rules,
)
    ensures
        eval(w, ExprView::Function { params, body }, r) == done(w, Value::Function(params, body)),
        eval(other, ExprView::Function { params, body }, r).result == eval(
            w,
            ExprView::Function { params, body },
            r,
        ).result,
{
    reveal(eval);
}

/// A name read inside a call is read from the world of the call: the
/// value of a name is what the innermost scope that binds it holds when
/// the name is evaluated.
pub proof fn lemma_name_reads_current_binding(w: World, name: Seq<char>, r: Rules)
    requires
        builtin_named(name) is None,
        env_get(w.scopes, name) is Some,
    ensures
        eval(w, ExprView::Ident(name), r) == done(w, env_get(w.scopes, name).unwrap()),
{
    reveal(eval);
}

proof fn lemma_binder_under(scopes: Scopes, inner: Scopes, name: Seq<char>, from: int)
    requires
        from < scopes.len(),
        inner.len() == scopes.len() + 1,
        forall|i: int| 0 <= i < scopes.len() ==> inner[i] == scopes[i],
    ensures
        binder(inner, name, from) == binder(scopes, name, from),
    decreases from + 1,
{
    if from >= 0 && lookup(scopes[from].store, name) is None {
        lemma_binder_under(scopes, inner, name, from - 1);
    }
}

/// A new empty scope hides nothing: every name is bound inside it to
/// what it is bound to outside.
pub proof fn lemma_empty_scope_hides_nothing(scopes: Scopes, name: Seq<char>)
    ensures
        env_get(env_with_receiver(scopes.push(empty_scope()), None), name) == env_get(
            scopes,
            name,
        ),
{
    let inner = env_with_receiver(scopes.push(empty_scope()), None);
    assert(inner[scopes.len() as int].store =~= Seq::empty());
    lemma_binder_under(scopes, inner, name, scopes.len() - 1);
    match binder(scopes, name, scopes.len() - 1) {
        Some(i) => {
            super::hygiene::lemma_binder_bounds(scopes, name, scopes.len() - 1);
        },
        None => {},
    }
}

/// Capture is by reference: a function that returns a name of its
/// surroundings gives what the name is bound to when the function is
/// called, whatever it was bound to when the function was made.
pub proof fn lemma_call_reads_at_call_time(w: World, name: Seq<char>, r: Rules)
    requires
        w.fuel > 0,
        builtin_named(name) is None,
        env_get(w.scopes, name) is Some,
    ensures
        call(
            w,
            Seq::empty(),
            seq![StmtView::Return(ExprView::Ident(name))],
            Seq::empty(),
            None,
            r,
        ).result == Ok::<Value, super::RuntimeError>(env_get(w.scopes, name).unwrap()),
{
    reveal(call);
    reveal(eval_list);
    reveal(run_list);
    let body = seq![StmtView::Return(ExprView::Ident(name))];
    let entered = env_with_receiver(w.scopes.push(empty_scope()), None);
    let w1 = World { scopes: entered, depth: w.depth + 1, ..w.burn() };
    lemma_empty_scope_hides_nothing(w.scopes, name);
    lemma_returns_name(w1, name, r);
    assert(super::bind_parameters(entered, Seq::empty(), Seq::empty(), 0) == entered);
    assert(w1.with_scopes(entered) == w1);
    lemma_body_returns(w1, name, r);
}

proof fn lemma_returns_name(w: World, name: Seq<char>, r: Rules)
    requires
        w.depth > 0,
        builtin_named(name) is None,
        env_get(w.scopes, name) is Some,
    ensures
        run(w, StmtView::Return(ExprView::Ident(name)), r) == done(
            w,
            Some(env_get(w.scopes, name).unwrap()),
        ),
{
    reveal(run);
    reveal(eval);
    lemma_name_reads_current_binding(w, name, r);
}

proof fn lemma_body_returns(w: World, name: Seq<char>, r: Rules)
    requires
        w.depth > 0,
        builtin_named(name) is None,
        env_get(w.scopes, name) is Some,
    ensures
        run_list(w, seq![StmtView::Return(ExprView::Ident(name))], 0, r) == done(
            w,
            Some(env_get(w.scopes, name).unwrap()),
        ),
{
    reveal(run_list);
    reveal(run);
    lemma_returns_name(w, name, r);
}

} // verus!
