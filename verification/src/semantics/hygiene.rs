//! Scope hygiene: what running a piece of a program can do to the scopes
//! around it.
//!
//! A statement can bind new names in the innermost scope only; in every
//! scope around it, it can at most give a bound name another value. A
//! call cannot even bind a name in the scope it is made from: it runs in
//! a scope of its own, which is gone when it returns.

use super::{
    assign, call, else_ifs, eval, eval_entries, eval_list, for_in_loop, for_loop, init_members,
    is_compound, limited, print_items, run, run_list, switch_arms, while_loop, Outcome, Rules,
    World,
};
use crate::ast::{ExprView, LiteralView, StmtView};
use crate::envs::{
    binder, empty_scope, env_set, env_set_store, env_with_receiver, key_index, lookup, put,
    Bindings, ScopeModel, Scopes,
};
use crate::heap::Entries;
use crate::objects::Value;
use crate::token::TokenKind;
use vstd::prelude::*;

verus! {

/// The names that `b` binds, in order.
pub open spec fn names(b: Bindings) -> Seq<Seq<char>> {
    b.map_values(|x: (Seq<char>, Value)| x.0)
}

/// Whether two scopes bind the same names in the same order and have the
/// same receiver.
pub open spec fn same_shape(a: ScopeModel, b: ScopeModel) -> bool {
    names(a.store) == names(b.store) && a.current_class == b.current_class
}

/// Whether the `k` outermost scopes of `after` have the shape of those of
/// `before`.
pub open spec fn kept(before: Scopes, after: Scopes, k: int) -> bool {
    &&& k <= before.len()
    &&& k <= after.len()
    &&& forall|i: int| 0 <= i < k ==> same_shape(#[trigger] after[i], before[i])
}

/// Whether `after` has as many scopes as `before`, and all but the
/// innermost have kept their shape.
pub open spec fn tidy(before: Scopes, after: Scopes) -> bool {
    &&& before.len() >= 1
    &&& after.len() == before.len()
    &&& kept(before, after, before.len() - 1)
}

/// Whether the outcome `o` of a step from `w`, if the step went through,
/// has left the scopes tidy.
pub open spec fn hygienic<T>(w: World, o: Outcome<T>) -> bool {
    o.result is Ok ==> tidy(w.scopes, o.world.scopes)
}

proof fn lemma_key_index(b: Bindings, key: Seq<char>, from: int)
    requires
        0 <= from,
    ensures
        key_index(b, key, from) is Some ==> from <= key_index(b, key, from).unwrap() < b.len()
            && b[key_index(b, key, from).unwrap()].0 == key,
    decreases b.len() - from,
{
    if from < b.len() && b[from].0 != key {
        lemma_key_index(b, key, from + 1);
    }
}

proof fn lemma_put_bound(b: Bindings, key: Seq<char>, v: Value)
    requires
        lookup(b, key) is Some,
    ensures
        names(put(b, key, v)) == names(b),
{
    lemma_key_index(b, key, 0);
    assert(names(put(b, key, v)) =~= names(b));
}

/// The scope that binds a name lies at or below where the search began,
/// and binds the name.
pub proof fn lemma_binder_bounds(scopes: Scopes, key: Seq<char>, from: int)
    requires
        from < scopes.len(),
    ensures
        binder(scopes, key, from) is Some ==> 0 <= binder(scopes, key, from).unwrap() <= from
            && lookup(scopes[binder(scopes, key, from).unwrap()].store, key) is Some,
    decreases from + 1,
{
    if from >= 0 && lookup(scopes[from].store, key) is None {
        lemma_binder_bounds(scopes, key, from - 1);
    }
}

/// Binding a name in the innermost scope leaves the scopes tidy.
pub proof fn lemma_set_store_tidy(scopes: Scopes, key: Seq<char>, v: Value)
    requires
        scopes.len() >= 1,
    ensures
        tidy(scopes, env_set_store(scopes, key, v)),
{
}

/// An assignment leaves the scopes tidy.
pub proof fn lemma_set_tidy(scopes: Scopes, key: Seq<char>, v: Value)
    requires
        scopes.len() >= 1,
    ensures
        tidy(scopes, env_set(scopes, key, v)),
{
    lemma_binder_bounds(scopes, key, scopes.len() - 1);
    match binder(scopes, key, scopes.len() - 1) {
        Some(i) => {
            lemma_put_bound(scopes[i].store, key, v);
        },
        None => {},
    }
}

proof fn lemma_parameters_tidy(scopes: Scopes, params: Seq<Seq<char>>, args: Seq<Value>, i: int)
    requires
        scopes.len() >= 1,
        0 <= i,
    ensures
        tidy(scopes, super::bind_parameters(scopes, params, args, i)),
    decreases params.len() - i,
{
    if i < params.len() {
        let v = if i < args.len() {
            args[i]
        } else {
            Value::Nil
        };
        let next = env_set_store(scopes, params[i], v);
        lemma_parameters_tidy(next, params, args, i + 1);
        lemma_tidy_twice(scopes, next, super::bind_parameters(scopes, params, args, i));
    }
}

/// Tidy after tidy is tidy.
pub proof fn lemma_tidy_twice(a: Scopes, b: Scopes, c: Scopes)
    requires
        tidy(a, b),
        tidy(b, c),
    ensures
        tidy(a, c),
{
    assert forall|i: int| 0 <= i < a.len() - 1 implies same_shape(#[trigger] c[i], a[i]) by {
        assert(same_shape(b[i], a[i]));
    }
}

/// What is tidy inside a new scope leaves all the scopes around it in
/// shape once the scope is closed.
proof fn lemma_scope_closed(before: Scopes, inside: Scopes, receiver: Option<Value>)
    requires
        before.len() >= 1,
        tidy(env_with_receiver(before.push(empty_scope()), receiver), inside),
    ensures
        inside.drop_last().len() == before.len(),
        kept(before, inside.drop_last(), before.len() as int),
        tidy(before, inside.drop_last()),
{
    let entered = env_with_receiver(before.push(empty_scope()), receiver);
    assert forall|i: int| 0 <= i < before.len() implies same_shape(
        #[trigger] inside.drop_last()[i],
        before[i],
    ) by {
        assert(same_shape(inside[i], entered[i]));
        assert(entered[i] == before[i]);
    }
}

proof fn lemma_entered(before: Scopes)
    ensures
        env_with_receiver(before.push(empty_scope()), None) == before.push(empty_scope()),
{
    assert(env_with_receiver(before.push(empty_scope()), None) =~= before.push(empty_scope()));
}

/// The value of an expression leaves the scopes tidy.
pub proof fn lemma_eval(w: World, e: ExprView, r: Rules)
    requires
        w.scopes.len() >= 1,
    ensures
        hygienic(w, eval(w, e, r)),
    decreases w.fuel, e, 3nat,
{
    match e {
        ExprView::Literal(l) => {
            reveal(eval);
            reveal(eval_list);
            reveal(eval_entries);
            match l {
                LiteralView::Array(elements) => {
                    lemma_eval_list(w, elements, 0, Seq::empty(), r);
                },
                LiteralView::Hash(pairs) => {
                    let h = w.heap.hashes.len() as usize;
                    lemma_eval_entries(
                        w.with_heap(w.heap.with_hash(Seq::empty())),
                        pairs,
                        0,
                        h,
                        r,
                    );
                },
                _ => {},
            }
        },
        ExprView::GroupingExpr(inner) => {
            reveal(eval);
            lemma_eval(w, *inner, r);
        },
        ExprView::PrefixExpr(op, right) => {
            reveal(eval);
            lemma_eval(w, *right, r);
        },
        ExprView::InfixExpr(left, op, right) => {
            if op.kind == TokenKind::Equal {
                reveal(eval);
                reveal(assign);
                lemma_assign(w, e, r);
            } else if is_compound(op.kind) {
                lemma_compound(w, e, r);
            } else {
                lemma_two(w, e, *left, *right, r);
            }
        },
        ExprView::PrintExpr(exprs) => {
            reveal(eval);
            reveal(print_items);
            lemma_print_items(w, exprs, 0, r);
        },
        ExprView::IndexExpr(target, index) => {
            lemma_two(w, e, *target, *index, r);
        },
        ExprView::If { .. } => {
            lemma_if(w, e, r);
        },
        ExprView::Call { .. } => {
            lemma_call_expression(w, e, r);
        },
        ExprView::ClassInit { .. } => {
            lemma_class_init(w, e, r);
        },
        ExprView::ClassCall { callee, method, args } => {
            reveal(eval);
            reveal(call);
            match crate::envs::env_get(w.scopes, callee) {
                Some(Value::ClassInstance { name, id }) => match lookup(
                    w.heap.methods(id),
                    method,
                ) {
                    Some(Value::Function(params, body)) => {
                        lemma_call(
                            w,
                            params,
                            body,
                            args,
                            Some(Value::ClassInstance { name, id }),
                            r,
                        );
                    },
                    _ => {},
                },
                _ => {},
            }
        },
        ExprView::ThisCall { method, args } => {
            reveal(eval);
            reveal(call);
            match crate::envs::env_receiver(w.scopes) {
                Some(Value::ClassInstance { name, id }) => match lookup(
                    w.heap.methods(id),
                    method,
                ) {
                    Some(Value::Function(params, body)) => {
                        lemma_call(
                            w,
                            params,
                            body,
                            args,
                            Some(Value::ClassInstance { name, id }),
                            r,
                        );
                    },
                    _ => {},
                },
                _ => {},
            }
        },
        _ => {
            reveal(eval);
        },
    }
}

/// Two operands, one after the other.
proof fn lemma_two(w: World, e: ExprView, first: ExprView, second: ExprView, r: Rules)
    requires
        w.scopes.len() >= 1,
        (e matches ExprView::InfixExpr(l, op, rr) && *l == first && *rr == second && op.kind
            != TokenKind::Equal && !is_compound(op.kind)) || (e matches ExprView::IndexExpr(t, i)
            && *t == first && *i == second),
    ensures
        hygienic(w, eval(w, e, r)),
    decreases w.fuel, e, 2nat,
{
    reveal(eval);
    lemma_eval(w, first, r);
    let a = limited(w, eval(w, first, r));
    if a.result is Ok {
        lemma_eval(a.world, second, r);
        let b = eval(a.world, second, r);
        if b.result is Ok {
            lemma_tidy_twice(w.scopes, a.world.scopes, b.world.scopes);
        }
    }
}

proof fn lemma_compound(w: World, e: ExprView, r: Rules)
    requires
        w.scopes.len() >= 1,
        e matches ExprView::InfixExpr(_, op, _) && is_compound(op.kind),
    ensures
        hygienic(w, eval(w, e, r)),
    decreases w.fuel, e, 2nat,
{
    reveal(eval);
    match e {
        ExprView::InfixExpr(left, op, right) => match *left {
            ExprView::Ident(name) => {
                lemma_eval(w, *right, r);
                let a = eval(w, *right, r);
                if a.result is Ok {
                    match (a.result, crate::envs::env_get(a.world.scopes, name)) {
                        (Ok(Value::Number(b)), Some(Value::Number(n))) => {
                            let v = Value::Number(
                                (r.arithmetic.binary)(super::number_op(op.kind).unwrap(), n, b),
                            );
                            lemma_set_tidy(a.world.scopes, name, v);
                            lemma_tidy_twice(
                                w.scopes,
                                a.world.scopes,
                                env_set(a.world.scopes, name, v),
                            );
                        },
                        _ => {},
                    }
                }
            },
            _ => {},
        },
        _ => {},
    }
}

/// An assignment leaves the scopes tidy.
pub proof fn lemma_assign(w: World, e: ExprView, r: Rules)
    requires
        w.scopes.len() >= 1,
    ensures
        hygienic(w, assign(w, e, r)),
    decreases w.fuel, e, 1nat,
{
    reveal(assign);
    reveal(eval);
    match e {
        ExprView::InfixExpr(left, _, right) => match *left {
            ExprView::Ident(name) => {
                lemma_eval(w, *right, r);
                let a = eval(w, *right, r);
                match a.result {
                    Ok(v) => {
                        lemma_set_tidy(a.world.scopes, name, v);
                        lemma_tidy_twice(
                            w.scopes,
                            a.world.scopes,
                            env_set(a.world.scopes, name, v),
                        );
                    },
                    _ => {},
                }
            },
            ExprView::ThisExpr(field) => {
                lemma_eval(w, *right, r);
            },
            ExprView::IndexExpr(target, index) => {
                lemma_eval(w, *target, r);
                let a = limited(w, eval(w, *target, r));
                if a.result is Ok {
                    lemma_eval(a.world, *index, r);
                    let b = limited(a.world, eval(a.world, *index, r));
                    if b.result is Ok {
                        lemma_tidy_twice(w.scopes, a.world.scopes, b.world.scopes);
                        lemma_eval(b.world, *right, r);
                        let c = eval(b.world, *right, r);
                        if c.result is Ok {
                            lemma_tidy_twice(w.scopes, b.world.scopes, c.world.scopes);
                        }
                    }
                }
            },
            _ => {},
        },
        _ => {},
    }
}

proof fn lemma_if(w: World, e: ExprView, r: Rules)
    requires
        w.scopes.len() >= 1,
        e is If,
    ensures
        hygienic(w, eval(w, e, r)),
    decreases w.fuel, e, 2nat,
{
    reveal(eval);
    reveal(run_list);
    reveal(else_ifs);
    match e {
        ExprView::If { condition, elseif, then_branch, else_branch } => {
            lemma_eval(w, *condition, r);
            let a = limited(w, eval(w, *condition, r));
            match a.result {
                Ok(Value::Boolean(true)) => {
                    lemma_run_list(a.world, then_branch, 0, r);
                    let b = run_list(a.world, then_branch, 0, r);
                    if b.result is Ok {
                        lemma_tidy_twice(w.scopes, a.world.scopes, b.world.scopes);
                    }
                },
                Ok(Value::Boolean(false)) => {
                    lemma_else_ifs(a.world, elseif, 0, r);
                    let b = limited(a.world, else_ifs(a.world, elseif, 0, r));
                    if b.result is Ok {
                        lemma_tidy_twice(w.scopes, a.world.scopes, b.world.scopes);
                        if b.result == Ok::<Option<Option<Value>>, super::RuntimeError>(None) {
                            lemma_run_list(b.world, else_branch, 0, r);
                            let c = run_list(b.world, else_branch, 0, r);
                            if c.result is Ok {
                                lemma_tidy_twice(w.scopes, b.world.scopes, c.world.scopes);
                            }
                        }
                    }
                },
                _ => {},
            }
        },
        _ => {},
    }
}

proof fn lemma_call_expression(w: World, e: ExprView, r: Rules)
    requires
        w.scopes.len() >= 1,
        e is Call,
    ensures
        hygienic(w, eval(w, e, r)),
    decreases w.fuel, e, 2nat,
{
    reveal(eval);
    reveal(eval_list);
    reveal(call);
    match e {
        ExprView::Call { callee, args } => {
            lemma_eval(w, *callee, r);
            let a = limited(w, eval(w, *callee, r));
            match a.result {
                Ok(Value::Builtin(_, _, _)) => {
                    lemma_eval_list(a.world, args, 0, Seq::empty(), r);
                    let b = eval_list(a.world, args, 0, Seq::empty(), r);
                    if b.result is Ok {
                        lemma_tidy_twice(w.scopes, a.world.scopes, b.world.scopes);
                    }
                },
                Ok(Value::Function(params, body)) => {
                    lemma_call(a.world, params, body, args, None, r);
                    let b = call(a.world, params, body, args, None, r);
                    if b.result is Ok {
                        lemma_tidy_twice(w.scopes, a.world.scopes, b.world.scopes);
                    }
                },
                _ => {},
            }
        },
        _ => {},
    }
}

proof fn lemma_class_init(w: World, e: ExprView, r: Rules)
    requires
        w.scopes.len() >= 1,
        e is ClassInit,
    ensures
        hygienic(w, eval(w, e, r)),
    decreases w.fuel, e, 2nat,
{
    reveal(eval);
    reveal(init_members);
    reveal(call);
    match e {
        ExprView::ClassInit { name, args } => match crate::envs::env_get(w.scopes, name) {
            Some(Value::Class(_, members)) => {
                if w.fuel > 0 {
                    let id = w.heap.instances.len() as usize;
                    let instance = Value::ClassInstance { name, id };
                    let w1 = w.burn().with_heap(
                        w.heap.with_instance(
                            crate::heap::InstanceModel {
                                fields: Seq::empty(),
                                methods: Seq::empty(),
                            },
                        ),
                    );
                    lemma_init_members(w1, members, 0, id, r);
                    let a = limited(w1, init_members(w1, members, 0, id, r));
                    if a.result is Ok {
                        match lookup(a.world.heap.methods(id), "init"@) {
                            Some(Value::Function(params, body)) => {
                                lemma_call(a.world, params, body, args, Some(instance), r);
                                let b = call(a.world, params, body, args, Some(instance), r);
                                if b.result is Ok {
                                    lemma_tidy_twice(w.scopes, a.world.scopes, b.world.scopes);
                                }
                            },
                            _ => {},
                        }
                    }
                }
            },
            _ => {},
        },
        _ => {},
    }
}

proof fn lemma_eval_list(w: World, es: Seq<ExprView>, i: int, acc: Seq<Value>, r: Rules)
    requires
        w.scopes.len() >= 1,
    ensures
        hygienic(w, eval_list(w, es, i, acc, r)),
    decreases w.fuel, es, es.len() - i,
{
    reveal(eval_list);
    reveal(eval);
    if 0 <= i < es.len() {
        lemma_eval(w, es[i], r);
        let a = limited(w, eval(w, es[i], r));
        match a.result {
            Ok(v) => {
                lemma_eval_list(a.world, es, i + 1, acc.push(v), r);
                let b = eval_list(a.world, es, i + 1, acc.push(v), r);
                if b.result is Ok {
                    lemma_tidy_twice(w.scopes, a.world.scopes, b.world.scopes);
                }
            },
            _ => {},
        }
    }
}

proof fn lemma_print_items(w: World, es: Seq<ExprView>, i: int, r: Rules)
    requires
        w.scopes.len() >= 1,
    ensures
        hygienic(w, print_items(w, es, i, r)),
    decreases w.fuel, es, es.len() - i,
{
    reveal(print_items);
    reveal(eval);
    if 0 <= i < es.len() {
        lemma_eval(w, es[i], r);
        let a = limited(w, eval(w, es[i], r));
        match a.result {
            Ok(v) => {
                let w1 = a.world.write(a.world.text(v, r));
                lemma_print_items(w1, es, i + 1, r);
                let b = print_items(w1, es, i + 1, r);
                if b.result is Ok {
                    lemma_tidy_twice(w.scopes, a.world.scopes, b.world.scopes);
                }
            },
            _ => {},
        }
    }
}

proof fn lemma_eval_entries(
    w: World,
    pairs: Seq<(ExprView, ExprView)>,
    i: int,
    h: usize,
    r: Rules,
)
    requires
        w.scopes.len() >= 1,
    ensures
        hygienic(w, eval_entries(w, pairs, i, h, r)),
    decreases w.fuel, pairs, pairs.len() - i,
{
    reveal(eval_entries);
    reveal(eval);
    if 0 <= i < pairs.len() {
        lemma_eval(w, pairs[i].0, r);
        let a = limited(w, eval(w, pairs[i].0, r));
        match a.result {
            Ok(k) => {
                lemma_eval(a.world, pairs[i].1, r);
                let b = limited(a.world, eval(a.world, pairs[i].1, r));
                match b.result {
                    Ok(v) => {
                        lemma_tidy_twice(w.scopes, a.world.scopes, b.world.scopes);
                        let w1 = b.world.with_heap(b.world.heap.hash_put(h, k, v));
                        lemma_eval_entries(w1, pairs, i + 1, h, r);
                        let c = eval_entries(w1, pairs, i + 1, h, r);
                        if c.result is Ok {
                            lemma_tidy_twice(w.scopes, b.world.scopes, c.world.scopes);
                        }
                    },
                    _ => {},
                }
            },
            _ => {},
        }
    }
}

proof fn lemma_else_ifs(w: World, arms: Seq<(ExprView, Seq<StmtView>)>, i: int, r: Rules)
    requires
        w.scopes.len() >= 1,
    ensures
        hygienic(w, else_ifs(w, arms, i, r)),
    decreases w.fuel, arms, arms.len() - i,
{
    reveal(else_ifs);
    reveal(eval);
    reveal(run_list);
    if 0 <= i < arms.len() {
        lemma_eval(w, arms[i].0, r);
        let a = limited(w, eval(w, arms[i].0, r));
        match a.result {
            Ok(Value::Boolean(true)) => {
                lemma_run_list(a.world, arms[i].1, 0, r);
                let b = run_list(a.world, arms[i].1, 0, r);
                if b.result is Ok {
                    lemma_tidy_twice(w.scopes, a.world.scopes, b.world.scopes);
                }
            },
            Ok(_) => {
                lemma_else_ifs(a.world, arms, i + 1, r);
                let b = else_ifs(a.world, arms, i + 1, r);
                if b.result is Ok {
                    lemma_tidy_twice(w.scopes, a.world.scopes, b.world.scopes);
                }
            },
            _ => {},
        }
    }
}

/// Environment hygiene: a call that returns leaves every scope of its
/// caller in shape. The caller has the scopes it had, each binds the
/// names it bound, in the same order, and has the receiver it had; what
/// the call can have done to them is give bound names other values, by
/// assignments. The scope of the call itself is gone.
pub proof fn lemma_call(
    w: World,
    params: Seq<Seq<char>>,
    body: Seq<StmtView>,
    args: Seq<ExprView>,
    receiver: Option<Value>,
    r: Rules,
)
    requires
        w.scopes.len() >= 1,
    ensures
        call(w, params, body, args, receiver, r).result is Ok ==> {
            let after = call(w, params, body, args, receiver, r).world.scopes;
            &&& after.len() == w.scopes.len()
            &&& kept(w.scopes, after, w.scopes.len() as int)
            &&& tidy(w.scopes, after)
        },
    decreases w.fuel, args, 0nat,
{
    reveal(call);
    reveal(eval_list);
    reveal(run_list);
    if w.fuel > 0 {
        let entered = env_with_receiver(w.scopes.push(empty_scope()), receiver);
        let w1 = World { scopes: entered, depth: w.depth + 1, ..w.burn() };
        lemma_eval_list(w1, args, 0, Seq::empty(), r);
        let a = limited(w1, eval_list(w1, args, 0, Seq::empty(), r));
        match a.result {
            Ok(vs) => {
                let bound = super::bind_parameters(a.world.scopes, params, vs, 0);
                lemma_parameters_tidy(a.world.scopes, params, vs, 0);
                let w2 = a.world.with_scopes(bound);
                lemma_run_list(w2, body, 0, r);
                let b = run_list(w2, body, 0, r);
                if b.result is Ok {
                    lemma_tidy_twice(entered, a.world.scopes, bound);
                    lemma_tidy_twice(entered, bound, b.world.scopes);
                    lemma_scope_closed(w.scopes, b.world.scopes, receiver);
                }
            },
            _ => {},
        }
    }
}

proof fn lemma_init_members(w: World, members: Seq<StmtView>, i: int, id: usize, r: Rules)
    requires
        w.scopes.len() >= 1,
    ensures
        hygienic(w, init_members(w, members, i, id, r)),
    decreases w.fuel, members, members.len() - i,
{
    reveal(init_members);
    reveal(eval);
    if 0 <= i < members.len() {
        match members[i] {
            StmtView::Var(name, e) => {
                lemma_eval(w, e, r);
                let a = limited(w, eval(w, e, r));
                match a.result {
                    Ok(v) => {
                        let w1 = a.world.with_heap(a.world.heap.field_put(id, name, v));
                        lemma_init_members(w1, members, i + 1, id, r);
                        let b = init_members(w1, members, i + 1, id, r);
                        if b.result is Ok {
                            lemma_tidy_twice(w.scopes, a.world.scopes, b.world.scopes);
                        }
                    },
                    _ => {},
                }
            },
            StmtView::Function(name, params, body) => {
                let w1 = w.with_heap(
                    w.heap.method_put(id, name, Value::Function(params, body)),
                );
                lemma_init_members(w1, members, i + 1, id, r);
            },
            _ => {},
        }
    }
}

/// A statement leaves the scopes tidy.
pub proof fn lemma_run(w: World, s: StmtView, r: Rules)
    requires
        w.scopes.len() >= 1,
    ensures
        hygienic(w, run(w, s, r)),
    decreases w.fuel, s, 3nat,
{
    match s {
        StmtView::Var(name, e) => {
            reveal(run);
            reveal(eval);
            lemma_eval(w, e, r);
            let a = eval(w, e, r);
            match a.result {
                Ok(v) => {
                    lemma_set_store_tidy(a.world.scopes, name, v);
                    lemma_tidy_twice(
                        w.scopes,
                        a.world.scopes,
                        env_set_store(a.world.scopes, name, v),
                    );
                },
                _ => {},
            }
        },
        StmtView::Expr(e) => {
            reveal(run);
            reveal(eval);
            lemma_eval(w, e, r);
        },
        StmtView::Return(e) => {
            reveal(run);
            reveal(eval);
            lemma_eval(w, e, r);
        },
        StmtView::Block(body) => {
            reveal(run);
            reveal(run_list);
            lemma_entered(w.scopes);
            lemma_run_list(w.enter(), body, 0, r);
            let a = run_list(w.enter(), body, 0, r);
            if a.result is Ok {
                lemma_scope_closed(w.scopes, a.world.scopes, None);
            }
        },
        StmtView::Function(name, params, body) => {
            reveal(run);
            lemma_set_store_tidy(w.scopes, name, Value::Function(params, body));
        },
        StmtView::ClassStmt { name, properties } => {
            reveal(run);
            lemma_set_tidy(w.scopes, name, Value::Class(name, properties));
        },
        StmtView::Switch(e, arms) => {
            reveal(run);
            reveal(eval);
            reveal(switch_arms);
            lemma_eval(w, e, r);
            let a = limited(w, eval(w, e, r));
            match a.result {
                Ok(v) => {
                    lemma_switch_arms(a.world, v, arms, 0, r);
                    let b = switch_arms(a.world, v, arms, 0, r);
                    if b.result is Ok {
                        lemma_tidy_twice(w.scopes, a.world.scopes, b.world.scopes);
                    }
                },
                _ => {},
            }
        },
        StmtView::While(condition, body) => {
            reveal(run);
            reveal(while_loop);
            lemma_while_loop(w, condition, body, r);
        },
        StmtView::For { init, conditions, step, block } => {
            reveal(run);
            reveal(for_loop);
            lemma_run(w, *init, r);
            let a = limited(w, run(w, *init, r));
            if a.result is Ok {
                lemma_for_loop(a.world, *conditions, *step, block, r);
                let b = for_loop(a.world, *conditions, *step, block, r);
                if b.result is Ok {
                    lemma_tidy_twice(w.scopes, a.world.scopes, b.world.scopes);
                }
            }
        },
        StmtView::ForIn { var, iter, block } => {
            reveal(run);
            reveal(eval);
            reveal(for_in_loop);
            match *var {
                StmtView::Var(name, _) => {
                    lemma_eval(w, *iter, r);
                    let a = limited(w, eval(w, *iter, r));
                    match a.result {
                        Ok(Value::Hash(h)) => {
                            lemma_for_in_loop(a.world, name, a.world.heap.hash(h), 0, block, r);
                            let b = for_in_loop(a.world, name, a.world.heap.hash(h), 0, block, r);
                            if b.result is Ok {
                                lemma_tidy_twice(w.scopes, a.world.scopes, b.world.scopes);
                            }
                        },
                        _ => {},
                    }
                },
                _ => {},
            }
        },
        StmtView::Assert { condition, message } => {
            reveal(run);
            reveal(eval);
            lemma_eval(w, *condition, r);
        },
        StmtView::Assign(target, value) => {
            reveal(run);
            reveal(assign);
            if w.fuel > 0 {
                lemma_assign(
                    w.burn(),
                    ExprView::InfixExpr(
                        Box::new(target),
                        crate::token::TokenView::fixed(TokenKind::Equal),
                        Box::new(value),
                    ),
                    r,
                );
            }
        },
        _ => {
            reveal(run);
        },
    }
}

proof fn lemma_run_list(w: World, ss: Seq<StmtView>, i: int, r: Rules)
    requires
        w.scopes.len() >= 1,
    ensures
        hygienic(w, run_list(w, ss, i, r)),
    decreases w.fuel, ss, ss.len() - i,
{
    reveal(run_list);
    reveal(run);
    if 0 <= i < ss.len() {
        lemma_run(w, ss[i], r);
        let a = limited(w, run(w, ss[i], r));
        if a.result == Ok::<Option<Value>, super::RuntimeError>(None) {
            lemma_run_list(a.world, ss, i + 1, r);
            let b = run_list(a.world, ss, i + 1, r);
            if b.result is Ok {
                lemma_tidy_twice(w.scopes, a.world.scopes, b.world.scopes);
            }
        }
    }
}

proof fn lemma_switch_arms(w: World, subject: Value, arms: Seq<StmtView>, i: int, r: Rules)
    requires
        w.scopes.len() >= 1,
    ensures
        hygienic(w, switch_arms(w, subject, arms, i, r)),
    decreases w.fuel, arms, arms.len() - i,
{
    reveal(switch_arms);
    reveal(eval);
    reveal(run_list);
    if 0 <= i < arms.len() {
        match arms[i] {
            StmtView::Case(e, body) => {
                lemma_eval(w, e, r);
                let a = limited(w, eval(w, e, r));
                match a.result {
                    Ok(v) => {
                        if crate::heap::same_key(v, subject) {
                            lemma_run_list(a.world, body, 0, r);
                            let b = run_list(a.world, body, 0, r);
                            if b.result is Ok {
                                lemma_tidy_twice(w.scopes, a.world.scopes, b.world.scopes);
                            }
                        } else {
                            lemma_switch_arms(a.world, subject, arms, i + 1, r);
                            let b = switch_arms(a.world, subject, arms, i + 1, r);
                            if b.result is Ok {
                                lemma_tidy_twice(w.scopes, a.world.scopes, b.world.scopes);
                            }
                        }
                    },
                    _ => {},
                }
            },
            StmtView::Default(body) => {
                lemma_run_list(w, body, 0, r);
            },
            _ => {},
        }
    }
}

proof fn lemma_while_loop(w: World, condition: ExprView, body: Seq<StmtView>, r: Rules)
    requires
        w.scopes.len() >= 1,
    ensures
        hygienic(w, while_loop(w, condition, body, r)),
    decreases w.fuel, body, 1nat,
{
    reveal(while_loop);
    reveal(eval);
    reveal(run_list);
    if w.fuel > 0 {
        let w1 = w.burn();
        lemma_eval(w1, condition, r);
        let a = limited(w1, eval(w1, condition, r));
        match a.result {
            Ok(Value::Boolean(true)) => {
                lemma_entered(a.world.scopes);
                lemma_run_list(a.world.enter(), body, 0, r);
                let b = limited(a.world, run_list(a.world.enter(), body, 0, r));
                if b.result is Ok {
                    lemma_scope_closed(a.world.scopes, b.world.scopes, None);
                    lemma_tidy_twice(w.scopes, a.world.scopes, b.world.leave().scopes);
                    if b.result == Ok::<Option<Value>, super::RuntimeError>(None) {
                        lemma_while_loop(b.world.leave(), condition, body, r);
                        let c = while_loop(b.world.leave(), condition, body, r);
                        if c.result is Ok {
                            lemma_tidy_twice(w.scopes, b.world.leave().scopes, c.world.scopes);
                        }
                    }
                }
            },
            _ => {},
        }
    }
}

proof fn lemma_for_loop(
    w: World,
    condition: ExprView,
    step: StmtView,
    body: Seq<StmtView>,
    r: Rules,
)
    requires
        w.scopes.len() >= 1,
    ensures
        hygienic(w, for_loop(w, condition, step, body, r)),
    decreases w.fuel, body, 1nat,
{
    reveal(for_loop);
    reveal(eval);
    reveal(run_list);
    reveal(run);
    if w.fuel > 0 {
        let w1 = w.burn();
        lemma_eval(w1, condition, r);
        let a = limited(w1, eval(w1, condition, r));
        match a.result {
            Ok(Value::Boolean(true)) => {
                lemma_entered(a.world.scopes);
                lemma_run_list(a.world.enter(), body, 0, r);
                let b = limited(a.world, run_list(a.world.enter(), body, 0, r));
                if b.result is Ok {
                    lemma_scope_closed(a.world.scopes, b.world.scopes, None);
                    lemma_tidy_twice(w.scopes, a.world.scopes, b.world.leave().scopes);
                    if b.result == Ok::<Option<Value>, super::RuntimeError>(None) {
                        lemma_run(b.world.leave(), step, r);
                        let c = limited(b.world, run(b.world.leave(), step, r));
                        if c.result is Ok {
                            lemma_tidy_twice(w.scopes, b.world.leave().scopes, c.world.scopes);
                            lemma_for_loop(c.world, condition, step, body, r);
                            let d = for_loop(c.world, condition, step, body, r);
                            if d.result is Ok {
                                lemma_tidy_twice(w.scopes, c.world.scopes, d.world.scopes);
                            }
                        }
                    }
                }
            },
            _ => {},
        }
    }
}

proof fn lemma_for_in_loop(
    w: World,
    name: Seq<char>,
    entries: Entries,
    i: int,
    body: Seq<StmtView>,
    r: Rules,
)
    requires
        w.scopes.len() >= 1,
    ensures
        hygienic(w, for_in_loop(w, name, entries, i, body, r)),
    decreases w.fuel, body, 1nat,
{
    reveal(for_in_loop);
    reveal(run_list);
    if 0 <= i < entries.len() && w.fuel > 0 {
        let w1 = w.burn().enter();
        let bound = env_set_store(w1.scopes, name, entries[i].0);
        let w2 = w1.with_scopes(bound);
        lemma_entered(w.scopes);
        lemma_set_store_tidy(w1.scopes, name, entries[i].0);
        lemma_run_list(w2, body, 0, r);
        let a = limited(w2, run_list(w2, body, 0, r));
        if a.result is Ok {
            lemma_tidy_twice(w1.scopes, bound, a.world.scopes);
            lemma_scope_closed(w.scopes, a.world.scopes, None);
            if a.result == Ok::<Option<Value>, super::RuntimeError>(None) {
                lemma_for_in_loop(a.world.leave(), name, entries, i + 1, body, r);
                let b = for_in_loop(a.world.leave(), name, entries, i + 1, body, r);
                if b.result is Ok {
                    lemma_tidy_twice(w.scopes, a.world.leave().scopes, b.world.scopes);
                }
            }
        }
    }
}

} // verus!
