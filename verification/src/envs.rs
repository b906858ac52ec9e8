//! The environment of the evaluator: a stack of scopes, each a list of
//! bindings and a slot for the receiver of the method being run.

use crate::objects::{Object, Value};
use vstd::prelude::*;

verus! {

/// A list of bindings, oldest first. A name is bound once: its first
/// entry is its binding.
pub type Bindings = Seq<(Seq<char>, Value)>;

/// The mathematical value of a list of bindings.
pub open spec fn bindings(v: Seq<(String, Object)>) -> Bindings {
    v.map_values(|b: (String, Object)| (b.0@, b.1.view()))
}

/// The place of the first binding of `key` at or after `from`.
pub open spec fn key_index(b: Bindings, key: Seq<char>, from: int) -> Option<int>
    decreases b.len() - from,
{
    if from < 0 || from >= b.len() {
        None
    } else if b[from].0 == key {
        Some(from)
    } else {
        key_index(b, key, from + 1)
    }
}

/// What `b` binds `key` to.
pub open spec fn lookup(b: Bindings, key: Seq<char>) -> Option<Value> {
    match key_index(b, key, 0) {
        Some(i) => Some(b[i].1),
        None => None,
    }
}

/// `b` with `key` bound to `value`: in place of its binding if it has one,
/// else as the last binding.
pub open spec fn put(b: Bindings, key: Seq<char>, value: Value) -> Bindings {
    match key_index(b, key, 0) {
        Some(i) => b.update(i, (key, value)),
        None => b.push((key, value)),
    }
}

/// The place of the binding of `key` in `v`.
pub fn find(v: &Vec<(String, Object)>, key: &String) -> (r: Option<usize>)
    ensures
        match r {
            Some(i) => Some(i as int),
            None => None,
        } == key_index(bindings(v@), key@, 0),
        r is Some ==> r.unwrap() < v.len(),
{
    let mut i: usize = 0;
    while i < v.len()
        invariant
            i <= v.len(),
            key_index(bindings(v@), key@, 0) == key_index(bindings(v@), key@, i as int),
        decreases v.len() - i,
    {
        if v[i].0 == *key {
            return Some(i);
        }
        i += 1;
    }
    None
}

/// Binds `key` to `value` in `v`.
pub fn bind<'p>(v: &mut Vec<(String, Object<'p>)>, key: String, value: Object<'p>)
    ensures
        bindings(final(v)@) == put(bindings(old(v)@), key@, value.view()),
{
    match find(v, &key) {
        Some(i) => {
            v[i] = (key, value);
            assert(bindings(v@) =~= put(bindings(old(v)@), key@, value.view()));
        },
        None => {
            v.push((key, value));
            assert(bindings(v@) =~= put(bindings(old(v)@), key@, value.view()));
        },
    }
}

/// What `v` binds `key` to, copied.
pub fn fetch<'p>(v: &Vec<(String, Object<'p>)>, key: &String) -> (r: Option<Object<'p>>)
    ensures
        match r {
            Some(o) => Some(o.view()),
            None => None,
        } == lookup(bindings(v@), key@),
{
    match find(v, key) {
        Some(i) => Some(v[i].1.duplicate()),
        None => None,
    }
}

/// One scope: its bindings, and the receiver of the method call that
/// opened it, if one did.
pub struct Scope<'p> {
    pub store: Vec<(String, Object<'p>)>,
    pub current_class: Option<Object<'p>>,
}

/// The mathematical value of a [`Scope`].
pub struct ScopeModel {
    pub store: Bindings,
    pub current_class: Option<Value>,
}

impl<'p> Scope<'p> {
    pub open spec fn view(&self) -> ScopeModel {
        ScopeModel {
            store: bindings(self.store@),
            current_class: match self.current_class {
                Some(o) => Some(o.view()),
                None => None,
            },
        }
    }
}

/// The mathematical value of an environment: its scopes, outermost first.
pub type Scopes = Seq<ScopeModel>;

/// The place of the innermost scope at or below `from` that binds `key`.
pub open spec fn binder(scopes: Scopes, key: Seq<char>, from: int) -> Option<int>
    decreases from + 1,
{
    if from < 0 || from >= scopes.len() {
        None
    } else if lookup(scopes[from].store, key) is Some {
        Some(from)
    } else {
        binder(scopes, key, from - 1)
    }
}

/// What the environment binds `key` to, looking outward from the
/// innermost scope.
pub open spec fn env_get(scopes: Scopes, key: Seq<char>) -> Option<Value> {
    match binder(scopes, key, scopes.len() - 1) {
        Some(i) => lookup(scopes[i].store, key),
        None => None,
    }
}

/// The environment with `key` bound to `value` in its innermost scope.
pub open spec fn env_set_store(scopes: Scopes, key: Seq<char>, value: Value) -> Scopes {
    if scopes.len() == 0 {
        scopes
    } else {
        let last = scopes.len() - 1;
        scopes.update(
            last,
            ScopeModel { store: put(scopes[last].store, key, value), ..scopes[last] },
        )
    }
}

/// The environment after assigning `value` to `key`: in the innermost
/// scope that binds `key`, or, if none does, in the innermost scope.
pub open spec fn env_set(scopes: Scopes, key: Seq<char>, value: Value) -> Scopes {
    match binder(scopes, key, scopes.len() - 1) {
        Some(i) => scopes.update(
            i,
            ScopeModel { store: put(scopes[i].store, key, value), ..scopes[i] },
        ),
        None => env_set_store(scopes, key, value),
    }
}

/// The place of the innermost scope at or below `from` that holds a
/// receiver.
pub open spec fn receiver_scope(scopes: Scopes, from: int) -> Option<int>
    decreases from + 1,
{
    if from < 0 || from >= scopes.len() {
        None
    } else if scopes[from].current_class is Some {
        Some(from)
    } else {
        receiver_scope(scopes, from - 1)
    }
}

/// The receiver of the innermost method call under way.
pub open spec fn env_receiver(scopes: Scopes) -> Option<Value> {
    match receiver_scope(scopes, scopes.len() - 1) {
        Some(i) => scopes[i].current_class,
        None => None,
    }
}

/// The environment with the receiver slot of its innermost scope set to
/// `receiver`.
pub open spec fn env_with_receiver(scopes: Scopes, receiver: Option<Value>) -> Scopes {
    if scopes.len() == 0 {
        scopes
    } else {
        let last = scopes.len() - 1;
        scopes.update(last, ScopeModel { current_class: receiver, ..scopes[last] })
    }
}

/// The empty scope.
pub open spec fn empty_scope() -> ScopeModel {
    ScopeModel { store: Seq::empty(), current_class: None }
}

fn fresh_scope<'p>() -> (s: Scope<'p>)
    ensures
        s.view() == empty_scope(),
{
    let s = Scope { store: Vec::new(), current_class: None };
    assert(bindings(s.store@) =~= Seq::empty());
    s
}

/// An environment: nested scopes, the innermost last. It always has at
/// least one scope.
pub struct Env<'p> {
    scopes: Vec<Scope<'p>>,
}

impl<'p> Env<'p> {
    /// The scopes of the environment, outermost first.
    pub closed spec fn view(&self) -> Scopes {
        self.scopes@.map_values(|s: Scope| s.view())
    }

    /// The invariant of an environment: it has a scope.
    pub open spec fn wf(&self) -> bool {
        self.view().len() > 0
    }

    /// An environment of one empty scope.
    pub fn new() -> (env: Env<'p>)
        ensures
            env.view() == seq![empty_scope()],
    {
        let mut scopes: Vec<Scope<'p>> = Vec::new();
        scopes.push(fresh_scope());
        let env = Env { scopes };
        assert(env.view() =~= seq![empty_scope()]);
        env
    }

    /// An environment of one scope with the bindings `store`.
    pub fn from(store: Vec<(String, Object<'p>)>) -> (env: Env<'p>)
        ensures
            env.view() == seq![ScopeModel { store: bindings(store@), current_class: None }],
    {
        let mut scopes: Vec<Scope<'p>> = Vec::new();
        scopes.push(Scope { store, current_class: None });
        let env = Env { scopes };
        assert(env.view() =~= seq![ScopeModel { store: bindings(store@), current_class: None }]);
        env
    }

    /// `outer` with a new empty scope inside its innermost one.
    pub fn new_with_outer(outer: Env<'p>) -> (env: Env<'p>)
        ensures
            env.view() == outer.view().push(empty_scope()),
    {
        let mut env = outer;
        env.enter();
        env
    }

    /// Opens a new empty scope inside the innermost one.
    pub fn enter(&mut self)
        ensures
            final(self).view() == old(self).view().push(empty_scope()),
    {
        self.scopes.push(fresh_scope());
        assert(self.view() =~= old(self).view().push(empty_scope()));
    }

    /// Closes the innermost scope, unless it is the only one.
    pub fn leave(&mut self)
        ensures
            final(self).view() == if old(self).view().len() > 1 {
                old(self).view().drop_last()
            } else {
                old(self).view()
            },
    {
        if self.scopes.len() > 1 {
            self.scopes.pop();
            assert(self.view() =~= old(self).view().drop_last());
        }
    }

    /// How many scopes are open.
    pub fn depth(&self) -> (n: usize)
        ensures
            n == self.view().len(),
    {
        self.scopes.len()
    }

    /// What `name` is bound to, looking outward from the innermost scope.
    pub fn get(&self, name: &String) -> (r: Option<Object<'p>>)
        ensures
            match r {
                Some(o) => Some(o.view()),
                None => None,
            } == env_get(self.view(), name@),
    {
        let mut i: usize = self.scopes.len();
        while i > 0
            invariant
                i <= self.scopes.len(),
                binder(self.view(), name@, self.view().len() - 1) == binder(
                    self.view(),
                    name@,
                    i - 1,
                ),
            decreases i,
        {
            i -= 1;
            match fetch(&self.scopes[i].store, name) {
                Some(o) => {
                    return Some(o);
                },
                None => {},
            }
        }
        None
    }

    /// Assigns `value` to `name`: in the innermost scope that binds it,
    /// or, if none does, in the innermost scope.
    pub fn set(&mut self, name: String, value: Object<'p>)
        ensures
            final(self).view() == env_set(old(self).view(), name@, value.view()),
    {
        let mut i: usize = self.scopes.len();
        while i > 0
            invariant
                i <= self.scopes.len(),
                self.scopes == old(self).scopes,
                binder(self.view(), name@, self.view().len() - 1) == binder(
                    self.view(),
                    name@,
                    i - 1,
                ),
            decreases i,
        {
            i -= 1;
            if find(&self.scopes[i].store, &name).is_some() {
                self.put_at(i, name, value);
                return ;
            }
        }
        self.set_store(name, value);
    }

    fn put_at(&mut self, i: usize, name: String, value: Object<'p>)
        requires
            i < old(self).view().len(),
        ensures
            final(self).view() == old(self).view().update(
                i as int,
                ScopeModel {
                    store: put(old(self).view()[i as int].store, name@, value.view()),
                    ..old(self).view()[i as int]
                },
            ),
    {
        let ghost before = self.view();
        let mut scope = Scope { store: Vec::new(), current_class: None };
        std::mem::swap(&mut scope, &mut self.scopes[i]);
        bind(&mut scope.store, name, value);
        self.scopes[i] = scope;
        assert(self.view() =~= before.update(
            i as int,
            ScopeModel {
                store: put(before[i as int].store, name@, value.view()),
                ..before[i as int]
            },
        ));
    }

    /// Binds `name` to `value` in the innermost scope.
    pub fn set_store(&mut self, name: String, value: Object<'p>)
        ensures
            final(self).view() == env_set_store(old(self).view(), name@, value.view()),
    {
        let n = self.scopes.len();
        if n > 0 {
            self.put_at(n - 1, name, value);
        }
    }

    /// Makes `class` the receiver of the innermost scope.
    pub fn set_current_class(&mut self, class: Object<'p>)
        ensures
            final(self).view() == env_with_receiver(old(self).view(), Some(class.view())),
    {
        let n = self.scopes.len();
        if n > 0 {
            let ghost before = self.view();
            self.scopes[n - 1].current_class = Some(class);
            assert(self.view() =~= env_with_receiver(before, Some(class.view())));
        }
    }

    /// Clears the receiver of the innermost scope.
    pub fn reset_current_class(&mut self)
        ensures
            final(self).view() == env_with_receiver(old(self).view(), None),
    {
        let n = self.scopes.len();
        if n > 0 {
            let ghost before = self.view();
            self.scopes[n - 1].current_class = None;
            assert(self.view() =~= env_with_receiver(before, None));
        }
    }

    /// The receiver of the innermost method call under way.
    pub fn get_current_class(&self) -> (r: Option<Object<'p>>)
        ensures
            match r {
                Some(o) => Some(o.view()),
                None => None,
            } == env_receiver(self.view()),
    {
        let mut i: usize = self.scopes.len();
        while i > 0
            invariant
                i <= self.scopes.len(),
                receiver_scope(self.view(), self.view().len() - 1) == receiver_scope(
                    self.view(),
                    i - 1,
                ),
            decreases i,
        {
            i -= 1;
            match &self.scopes[i].current_class {
                Some(o) => {
                    return Some(o.duplicate());
                },
                None => {},
            }
        }
        None
    }
}

} // verus!
