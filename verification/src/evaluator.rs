//! The tree-walking evaluator. What it does is stated by the semantics.

use crate::ast::Program;
use crate::builtins::{
    builtin_named, builtin_output, builtin_result, call_builtin, Builtins,
};
use crate::display::{value_string, write_value};
use crate::envs::{
    bindings, empty_scope, env_get, env_receiver, env_set, env_set_store, env_with_receiver,
    lookup, Env,
};
use crate::heap::{entries, Heap, Instance, InstanceModel};
use crate::number::{lawful, model_of, NumberReply, NumberRequest};
use crate::objects::{values, Object, Value};
use crate::semantics::{Outcome, Rules, RuntimeError, World};
use vstd::prelude::*;

pub mod calls;
pub mod exprs;
pub mod lists;
pub mod loops;
pub mod stmts;
pub mod values;

verus! {

/// An evaluator of one program. `K` is the number kernel.
pub struct Evaluator<'p, K: Fn(NumberRequest) -> NumberReply> {
    output: bool,
    pub ast: &'p Program,
    builtins: Builtins,
    envs: Env<'p>,
    heap: Heap<'p>,
    written: String,
    fuel: usize,
    depth: usize,
    numbers: K,
}

/// What `r` and the world `w` are as the outcome of an expression.
pub open spec fn value_outcome(w: World, r: Result<Object, RuntimeError>) -> Outcome<Value> {
    Outcome {
        world: w,
        result: match r {
            Ok(o) => Ok(o.view()),
            Err(x) => Err(x),
        },
    }
}

/// What `r` and the world `w` are as the outcome of a statement.
pub open spec fn flow_outcome(w: World, r: Result<Option<Object>, RuntimeError>) -> Outcome<
    Option<Value>,
> {
    Outcome {
        world: w,
        result: match r {
            Ok(Some(o)) => Ok(Some(o.view())),
            Ok(None) => Ok(None),
            Err(x) => Err(x),
        },
    }
}

/// What `r` and the world `w` are as the outcome of a step without a
/// value.
pub open spec fn unit_outcome(w: World, r: Result<(), RuntimeError>) -> Outcome<()> {
    Outcome { world: w, result: r }
}

/// What `r` and the world `w` are as the outcome of a list of
/// expressions.
pub open spec fn values_outcome(w: World, r: Result<Vec<Object>, RuntimeError>) -> Outcome<
    Seq<Value>,
> {
    Outcome {
        world: w,
        result: match r {
            Ok(vs) => Ok(values(vs@)),
            Err(x) => Err(x),
        },
    }
}

impl<'p, K: Fn(NumberRequest) -> NumberReply> Evaluator<'p, K> {
    /// The state of the world as the evaluator holds it.
    pub closed spec fn world(&self) -> World {
        World {
            scopes: self.envs.view(),
            heap: self.heap.view(),
            output: self.written@,
            fuel: self.fuel as nat,
            depth: self.depth as nat,
        }
    }

    /// What does not change during the run.
    pub closed spec fn rules(&self) -> Rules {
        Rules { verbose: self.output, arithmetic: model_of(&self.numbers) }
    }

    /// The program being run.
    pub closed spec fn program(&self) -> &'p Program {
        self.ast
    }

    /// The evaluator's invariant.
    pub closed spec fn wf(&self) -> bool {
        &&& lawful(&self.numbers)
        &&& self.builtins.wf()
        &&& self.depth + self.fuel <= usize::MAX
    }

    /// Whether this evaluator is `before` after some steps: with the same
    /// rules and program, and no more fuel.
    pub open spec fn after(&self, before: &Self) -> bool {
        &&& self.wf()
        &&& self.rules() == before.rules()
        &&& self.program() == before.program()
        &&& self.world().fuel <= before.world().fuel
    }

    /// An evaluator of `ast`, with an empty world and all the fuel the
    /// machine can count. If `output` is set, a `return` at the top level
    /// writes its value. `numbers` must be a number kernel.
    pub fn new(ast: &'p Program, output: bool, numbers: K) -> (e: Evaluator<'p, K>)
        requires
            lawful(&numbers),
        ensures
            e.wf(),
            e.program() == ast,
            e.rules() == (Rules { verbose: output, arithmetic: model_of(&numbers) }),
            e.world() == (World {
                scopes: seq![empty_scope()],
                heap: crate::heap::HeapModel { hashes: Seq::empty(), instances: Seq::empty() },
                output: Seq::empty(),
                fuel: usize::MAX as nat,
                depth: 0,
            }),
    {
        Evaluator {
            output,
            ast,
            builtins: Builtins::new(),
            envs: Env::new(),
            heap: Heap::new(),
            written: String::new(),
            fuel: usize::MAX,
            depth: 0,
            numbers,
        }
    }

    /// Runs the program.
    ///
    /// Gives `Ok` when every statement has been run, and the failure that
    /// ended the run otherwise. What the program wrote, and what was
    /// written about a failure, is in `written`.
    pub fn evaluate(&mut self) -> (r: Result<(), RuntimeError>)
        requires
            old(self).wf(),
        ensures
            final(self).after(old(self)),
            unit_outcome(final(self).world(), r) == crate::semantics::run_program(
                old(self).world(),
                crate::ast::stmts_view(old(self).program()@),
                0,
                old(self).rules(),
            ),
    {
        let ast = self.ast;
        let mut i: usize = 0;
        while i < ast.len()
            invariant
                i <= ast.len(),
                ast == old(self).program(),
                old(self).wf(),
                self.after(old(self)),
                crate::semantics::run_program(
                    old(self).world(),
                    crate::ast::stmts_view(ast@),
                    0,
                    old(self).rules(),
                ) == crate::semantics::run_program(
                    self.world(),
                    crate::ast::stmts_view(ast@),
                    i as int,
                    old(self).rules(),
                ),
            decreases ast.len() - i,
        {
            proof {
                crate::ast::lemma_stmts_index(ast@, i as int);
            }
            match self.run(&ast[i]) {
                Err(x) => {
                    return Err(x);
                },
                Ok(_) => {},
            }
            i += 1;
        }
        proof {
            crate::ast::lemma_stmts_len(ast@);
        }
        Ok(())
    }

    /// Runs one statement of the program's text. Gives the value on its
    /// way out of the enclosing function, if the statement returned one.
    pub fn evaluate_stmt(&mut self, stmt: &'p crate::ast::Stmt) -> (r: Result<
        Option<Object<'p>>,
        RuntimeError,
    >)
        requires
            old(self).wf(),
        ensures
            final(self).after(old(self)),
            flow_outcome(final(self).world(), r) == crate::semantics::run(
                old(self).world(),
                stmt.view(),
                old(self).rules(),
            ),
    {
        self.run(stmt)
    }

    /// The value of one expression of the program's text.
    pub fn evaluate_expr(&mut self, expr: &'p crate::ast::ExprType) -> (r: Result<
        Object<'p>,
        RuntimeError,
    >)
        requires
            old(self).wf(),
        ensures
            final(self).after(old(self)),
            value_outcome(final(self).world(), r) == crate::semantics::eval(
                old(self).world(),
                expr.view(),
                old(self).rules(),
            ),
    {
        self.eval(expr)
    }

    /// What has been written so far.
    pub fn written(&self) -> (s: &String)
        ensures
            s@ == self.world().output,
    {
        &self.written
    }

    /// Takes what has been written so far, and leaves nothing written.
    pub fn take_written(&mut self) -> (s: String)
        requires
            old(self).wf(),
        ensures
            final(self).after(old(self)),
            s@ == old(self).world().output,
            final(self).world() == (World { output: Seq::empty(), ..old(self).world() }),
    {
        let mut s = String::new();
        std::mem::swap(&mut s, &mut self.written);
        s
    }

    /// How much fuel is left.
    pub fn fuel(&self) -> (n: usize)
        ensures
            n == self.world().fuel,
    {
        self.fuel
    }

    /// Sets the fuel to `fuel`, or to as much as the calls under way
    /// leave room for.
    pub fn refuel(&mut self, fuel: usize)
        requires
            old(self).wf(),
        ensures
            final(self).wf(),
            final(self).rules() == old(self).rules(),
            final(self).program() == old(self).program(),
            final(self).world() == (World {
                fuel: if fuel + old(self).world().depth <= usize::MAX {
                    fuel as nat
                } else {
                    (usize::MAX - old(self).world().depth) as nat
                },
                ..old(self).world()
            }),
    {
        if fuel > usize::MAX - self.depth {
            self.fuel = usize::MAX - self.depth;
        } else {
            self.fuel = fuel;
        }
    }

    pub(crate) fn verbose(&self) -> (b: bool)
        ensures
            b == self.rules().verbose,
    {
        self.output
    }

    pub(crate) fn depth(&self) -> (n: usize)
        ensures
            n == self.world().depth,
    {
        self.depth
    }

    /// Takes one unit of fuel, if there is one.
    pub(crate) fn burn(&mut self) -> (b: bool)
        requires
            old(self).wf(),
        ensures
            final(self).after(old(self)),
            b == (old(self).world().fuel > 0),
            b ==> final(self).world() == old(self).world().burn(),
            !b ==> final(self).world() == old(self).world(),
    {
        if self.fuel > 0 {
            self.fuel -= 1;
            true
        } else {
            false
        }
    }

    /// Writes `text`.
    pub(crate) fn write(&mut self, text: &str)
        requires
            old(self).wf(),
        ensures
            final(self).after(old(self)),
            final(self).world() == old(self).world().write(text@),
    {
        self.written.append(text);
    }

    /// Writes the printed form of `v`.
    pub(crate) fn write_value(&mut self, v: &Object<'p>)
        requires
            old(self).wf(),
        ensures
            final(self).after(old(self)),
            final(self).world() == old(self).world().write(
                old(self).world().text(v.view(), old(self).rules()),
            ),
    {
        let s = value_string(v, &self.heap, &self.numbers);
        self.written.append(s.as_str());
    }

    /// The builtin named `name`.
    pub(crate) fn builtin(&self, name: &String) -> (r: Option<Object<'p>>)
        requires
            self.wf(),
        ensures
            match r {
                Some(o) => Some(o.view()),
                None => None,
            } == builtin_named(name@),
    {
        self.builtins.get(name.as_str())
    }

    /// Runs the builtin at `index` on `args`.
    pub(crate) fn apply_builtin(&mut self, index: usize, args: &Vec<Object<'p>>) -> (r: Object<'p>)
        requires
            old(self).wf(),
        ensures
            final(self).after(old(self)),
            r.view() == builtin_result(
                index,
                values(args@),
                old(self).world().heap,
                old(self).rules().arithmetic.format,
            ),
            final(self).world() == (World {
                output: builtin_output(
                    old(self).world().output,
                    index,
                    values(args@),
                    old(self).world().heap,
                    old(self).rules().arithmetic.format,
                ),
                ..old(self).world()
            }),
    {
        call_builtin(index, args, &self.heap, &mut self.written, &self.numbers)
    }

    /// What the environment binds `name` to.
    pub(crate) fn lookup(&self, name: &String) -> (r: Option<Object<'p>>)
        ensures
            match r {
                Some(o) => Some(o.view()),
                None => None,
            } == env_get(self.world().scopes, name@),
    {
        self.envs.get(name)
    }

    /// Assigns `value` to `name` by the environment's rule.
    pub(crate) fn assign_name(&mut self, name: String, value: Object<'p>)
        requires
            old(self).wf(),
        ensures
            final(self).after(old(self)),
            final(self).world() == old(self).world().with_scopes(
                env_set(old(self).world().scopes, name@, value.view()),
            ),
    {
        self.envs.set(name, value);
    }

    /// Binds `name` to `value` in the innermost scope.
    pub(crate) fn define(&mut self, name: String, value: Object<'p>)
        requires
            old(self).wf(),
        ensures
            final(self).after(old(self)),
            final(self).world() == old(self).world().with_scopes(
                env_set_store(old(self).world().scopes, name@, value.view()),
            ),
    {
        self.envs.set_store(name, value);
    }

    /// Opens a scope.
    pub(crate) fn enter(&mut self)
        requires
            old(self).wf(),
        ensures
            final(self).after(old(self)),
            final(self).world() == old(self).world().enter(),
    {
        self.envs.enter();
    }

    /// Closes the innermost scope.
    pub(crate) fn leave(&mut self)
        requires
            old(self).wf(),
        ensures
            final(self).after(old(self)),
            final(self).world() == old(self).world().leave(),
    {
        self.envs.leave();
    }

    /// Begins a call: takes one unit of fuel, opens a scope with
    /// `receiver` as its receiver, and counts the call. Gives false, and
    /// does nothing, if there is no fuel.
    pub(crate) fn begin_call(&mut self, receiver: Option<Object<'p>>) -> (b: bool)
        requires
            old(self).wf(),
        ensures
            final(self).after(old(self)),
            b == (old(self).world().fuel > 0),
            !b ==> final(self).world() == old(self).world(),
            b ==> final(self).world() == (World {
                scopes: env_with_receiver(
                    old(self).world().scopes.push(empty_scope()),
                    match receiver {
                        Some(o) => Some(o.view()),
                        None => None,
                    },
                ),
                depth: old(self).world().depth + 1,
                ..old(self).world().burn()
            }),
            b ==> final(self).world().fuel < old(self).world().fuel,
    {
        if self.fuel == 0 {
            return false;
        }
        self.fuel -= 1;
        self.depth += 1;
        self.envs.enter();
        match receiver {
            Some(o) => {
                self.envs.set_current_class(o);
            },
            None => {
                self.envs.reset_current_class();
                assert(env_with_receiver(old(self).world().scopes.push(empty_scope()), None)
                    =~= old(self).world().scopes.push(empty_scope()));
            },
        }
        true
    }

    /// Ends a call: closes its scope and counts it out.
    pub(crate) fn end_call(&mut self)
        requires
            old(self).wf(),
        ensures
            final(self).after(old(self)),
            final(self).world() == old(self).world().returned(),
    {
        self.envs.leave();
        if self.depth > 0 {
            self.depth -= 1;
        }
    }

    /// Binds the parameters `params[i..]` to the arguments `args[i..]`.
    pub(crate) fn bind_parameters(&mut self, params: &'p Vec<crate::ast::Ident>, args: &Vec<Object<'p>>)
        requires
            old(self).wf(),
        ensures
            final(self).after(old(self)),
            final(self).world() == old(self).world().with_scopes(
                crate::semantics::bind_parameters(
                    old(self).world().scopes,
                    crate::ast::idents_view(params@),
                    values(args@),
                    0,
                ),
            ),
    {
        let mut i: usize = 0;
        proof {
            crate::objects::lemma_values_len(args@);
        }
        while i < params.len()
            invariant
                i <= params.len(),
                self.after(old(self)),
                values(args@).len() == args@.len(),
                self.world() == old(self).world().with_scopes(self.world().scopes),
                crate::semantics::bind_parameters(
                    old(self).world().scopes,
                    crate::ast::idents_view(params@),
                    values(args@),
                    0,
                ) == crate::semantics::bind_parameters(
                    self.world().scopes,
                    crate::ast::idents_view(params@),
                    values(args@),
                    i as int,
                ),
            decreases params.len() - i,
        {
            let v = if i < args.len() {
                proof {
                    crate::objects::lemma_values_index(args@, i as int);
                }
                args[i].duplicate()
            } else {
                Object::Nil
            };
            self.envs.set_store(params[i].0.clone(), v);
            i += 1;
        }
    }

    /// The receiver of the innermost method call under way.
    pub(crate) fn receiver(&self) -> (r: Option<Object<'p>>)
        ensures
            match r {
                Some(o) => Some(o.view()),
                None => None,
            } == env_receiver(self.world().scopes),
    {
        self.envs.get_current_class()
    }

    /// Puts a new empty hash on the heap.
    pub(crate) fn new_hash(&mut self) -> (h: usize)
        requires
            old(self).wf(),
        ensures
            final(self).after(old(self)),
            h == old(self).world().heap.hashes.len(),
            final(self).world() == old(self).world().with_heap(
                old(self).world().heap.with_hash(Seq::empty()),
            ),
    {
        let e: Vec<(Object<'p>, Object<'p>)> = Vec::new();
        assert(entries(e@) =~= Seq::empty());
        self.heap.new_hash(e)
    }

    /// Puts a new instance without members on the heap.
    pub(crate) fn new_instance(&mut self) -> (id: usize)
        requires
            old(self).wf(),
        ensures
            final(self).after(old(self)),
            id == old(self).world().heap.instances.len(),
            final(self).world() == old(self).world().with_heap(
                old(self).world().heap.with_instance(
                    InstanceModel { fields: Seq::empty(), methods: Seq::empty() },
                ),
            ),
    {
        let instance = Instance { fields: Vec::new(), methods: Vec::new() };
        assert(bindings(instance.fields@) =~= Seq::empty());
        assert(bindings(instance.methods@) =~= Seq::empty());
        self.heap.new_instance(instance)
    }

    /// Sets `key` to `value` in the hash at `h`.
    pub(crate) fn hash_put(&mut self, h: usize, key: Object<'p>, value: Object<'p>)
        requires
            old(self).wf(),
        ensures
            final(self).after(old(self)),
            final(self).world() == old(self).world().with_heap(
                old(self).world().heap.hash_put(h, key.view(), value.view()),
            ),
    {
        self.heap.hash_put(h, key, value);
    }

    /// The entries of the hash at `h`, copied.
    pub(crate) fn hash_entries(&self, h: usize) -> (r: Vec<(Object<'p>, Object<'p>)>)
        ensures
            entries(r@) == self.world().heap.hash(h),
    {
        self.heap.hash_entries(h)
    }

    /// Sets the field `name` of the instance at `id` to `value`.
    pub(crate) fn field_put(&mut self, id: usize, name: String, value: Object<'p>)
        requires
            old(self).wf(),
        ensures
            final(self).after(old(self)),
            final(self).world() == old(self).world().with_heap(
                old(self).world().heap.field_put(id, name@, value.view()),
            ),
    {
        self.heap.field_put(id, name, value);
    }

    /// Sets the method `name` of the instance at `id` to `value`.
    pub(crate) fn method_put(&mut self, id: usize, name: String, value: Object<'p>)
        requires
            old(self).wf(),
        ensures
            final(self).after(old(self)),
            final(self).world() == old(self).world().with_heap(
                old(self).world().heap.method_put(id, name@, value.view()),
            ),
    {
        self.heap.method_put(id, name, value);
    }

    /// The value of the field `name` of the instance at `id`.
    pub(crate) fn field(&self, id: usize, name: &String) -> (r: Option<Object<'p>>)
        ensures
            match r {
                Some(o) => Some(o.view()),
                None => None,
            } == lookup(self.world().heap.fields(id), name@),
    {
        self.heap.field_get(id, name)
    }

    /// The method `name` of the instance at `id`.
    pub(crate) fn method(&self, id: usize, name: &String) -> (r: Option<Object<'p>>)
        ensures
            match r {
                Some(o) => Some(o.view()),
                None => None,
            } == lookup(self.world().heap.methods(id), name@),
    {
        self.heap.method_get(id, name)
    }

    /// What indexing `target` by `at` gives.
    pub(crate) fn element(&self, target: &Object<'p>, at: &Object<'p>) -> (r: Result<
        Object<'p>,
        RuntimeError,
    >)
        ensures
            values::result_view(r) == crate::semantics::index_value(
                target.view(),
                at.view(),
                self.world().heap,
            ),
    {
        values::element(target, at, &self.heap)
    }

    /// What the binary operator `op` gives for `l` and `r`.
    pub(crate) fn binary(&self, op: crate::token::TokenKind, l: &Object<'p>, r: &Object<'p>) -> (res:
        Result<Object<'p>, RuntimeError>)
        requires
            self.wf(),
        ensures
            values::result_view(res) == crate::semantics::binary_value(
                op,
                l.view(),
                r.view(),
                self.rules().arithmetic,
            ),
    {
        values::binary(op, l, r, &self.numbers)
    }

    /// The rounded result of `op` on `a` and `b`.
    pub(crate) fn compute(
        &self,
        op: crate::number::NumberOp,
        a: crate::number::Number,
        b: crate::number::Number,
    ) -> (n: crate::number::Number)
        requires
            self.wf(),
        ensures
            n == (self.rules().arithmetic.binary)(op, a, b),
    {
        crate::number::compute(&self.numbers, op, a, b)
    }
}

} // verus!
