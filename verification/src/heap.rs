//! The heap of the evaluator: the hashes and class instances that values
//! refer to.

use crate::envs::{bind, bindings, fetch, lookup, put, Bindings};
use crate::objects::{Object, Value};
use vstd::prelude::*;

verus! {

/// The entries of a hash, oldest first. A key occurs once.
pub type Entries = Seq<(Value, Value)>;

/// Whether two values are the same key of a hash: equal numbers,
/// booleans, strings or indexes, two nils, or the same hash or instance.
/// Values of different kinds, and values of any other kind, are never
/// the same key.
pub open spec fn same_key(a: Value, b: Value) -> bool {
    match (a, b) {
        (Value::Number(x), Value::Number(y)) => x.same_as(y),
        (Value::Boolean(x), Value::Boolean(y)) => x == y,
        (Value::String(x), Value::String(y)) => x == y,
        (Value::Index(x), Value::Index(y)) => x == y,
        (Value::Nil, Value::Nil) => true,
        (Value::Hash(x), Value::Hash(y)) => x == y,
        (Value::ClassInstance { id: x, .. }, Value::ClassInstance { id: y, .. }) => x == y,
        _ => false,
    }
}

/// Whether two values are the same key of a hash.
pub fn is_same_key(a: &Object, b: &Object) -> (r: bool)
    ensures
        r == same_key(a.view(), b.view()),
{
    match (a, b) {
        (Object::Number(x), Object::Number(y)) => x.eq_number(y),
        (Object::Boolean(x), Object::Boolean(y)) => *x == *y,
        (Object::String(x), Object::String(y)) => *x == *y,
        (Object::Index(x), Object::Index(y)) => *x == *y,
        (Object::Nil, Object::Nil) => true,
        (Object::Hash(x), Object::Hash(y)) => *x == *y,
        (Object::ClassInstance { id: x, .. }, Object::ClassInstance { id: y, .. }) => *x == *y,
        _ => false,
    }
}

/// The mathematical value of the entries of a hash.
pub open spec fn entries(v: Seq<(Object, Object)>) -> Entries {
    v.map_values(|e: (Object, Object)| (e.0.view(), e.1.view()))
}

/// The place of the first entry at or after `from` whose key is `key`.
pub open spec fn entry_index(e: Entries, key: Value, from: int) -> Option<int>
    decreases e.len() - from,
{
    if from < 0 || from >= e.len() {
        None
    } else if same_key(e[from].0, key) {
        Some(from)
    } else {
        entry_index(e, key, from + 1)
    }
}

/// The value of `key` in `e`.
pub open spec fn entry_get(e: Entries, key: Value) -> Option<Value> {
    match entry_index(e, key, 0) {
        Some(i) => Some(e[i].1),
        None => None,
    }
}

/// `e` with `key` set to `value`: in place of its entry if it has one,
/// else as the last entry.
pub open spec fn entry_put(e: Entries, key: Value, value: Value) -> Entries {
    match entry_index(e, key, 0) {
        Some(i) => e.update(i, (key, value)),
        None => e.push((key, value)),
    }
}

fn find_entry(v: &Vec<(Object, Object)>, key: &Object) -> (r: Option<usize>)
    ensures
        match r {
            Some(i) => Some(i as int),
            None => None,
        } == entry_index(entries(v@), key.view(), 0),
        r is Some ==> r.unwrap() < v.len(),
{
    let mut i: usize = 0;
    while i < v.len()
        invariant
            i <= v.len(),
            entry_index(entries(v@), key.view(), 0) == entry_index(
                entries(v@),
                key.view(),
                i as int,
            ),
        decreases v.len() - i,
    {
        if is_same_key(&v[i].0, key) {
            return Some(i);
        }
        i += 1;
    }
    None
}

/// A copy of the entries `v`.
pub fn copy_entries<'p>(v: &Vec<(Object<'p>, Object<'p>)>) -> (r: Vec<(Object<'p>, Object<'p>)>)
    ensures
        entries(r@) == entries(v@),
{
    let mut r: Vec<(Object<'p>, Object<'p>)> = Vec::new();
    let mut i: usize = 0;
    while i < v.len()
        invariant
            i <= v.len(),
            entries(r@) == entries(v@).take(i as int),
        decreases v.len() - i,
    {
        let ghost before = r@;
        let key = v[i].0.duplicate();
        let value = v[i].1.duplicate();
        r.push((key, value));
        assert(entries(r@) =~= entries(before).push((key.view(), value.view())));
        assert(entries(v@).take(i + 1) =~= entries(v@).take(i as int).push(
            entries(v@)[i as int],
        ));
        i += 1;
    }
    assert(entries(v@).take(v.len() as int) =~= entries(v@));
    r
}

/// A copy of the bindings `v`.
pub fn copy_bindings<'p>(v: &Vec<(String, Object<'p>)>) -> (r: Vec<(String, Object<'p>)>)
    ensures
        bindings(r@) == bindings(v@),
{
    let mut r: Vec<(String, Object<'p>)> = Vec::new();
    let mut i: usize = 0;
    while i < v.len()
        invariant
            i <= v.len(),
            bindings(r@) == bindings(v@).take(i as int),
        decreases v.len() - i,
    {
        let ghost before = r@;
        let key = v[i].0.clone();
        let value = v[i].1.duplicate();
        r.push((key, value));
        assert(bindings(r@) =~= bindings(before).push((key@, value.view())));
        assert(bindings(v@).take(i + 1) =~= bindings(v@).take(i as int).push(
            bindings(v@)[i as int],
        ));
        i += 1;
    }
    assert(bindings(v@).take(v.len() as int) =~= bindings(v@));
    r
}

/// A class instance: its fields and its methods, both by name.
pub struct Instance<'p> {
    pub fields: Vec<(String, Object<'p>)>,
    pub methods: Vec<(String, Object<'p>)>,
}

/// The mathematical value of an [`Instance`].
pub struct InstanceModel {
    pub fields: Bindings,
    pub methods: Bindings,
}

impl<'p> Instance<'p> {
    pub open spec fn view(&self) -> InstanceModel {
        InstanceModel { fields: bindings(self.fields@), methods: bindings(self.methods@) }
    }
}

/// The mathematical value of a heap.
pub struct HeapModel {
    pub hashes: Seq<Entries>,
    pub instances: Seq<InstanceModel>,
}

impl HeapModel {
    /// The heap with one more hash, holding `e`.
    pub open spec fn with_hash(self, e: Entries) -> HeapModel {
        HeapModel { hashes: self.hashes.push(e), ..self }
    }

    /// The heap with one more instance.
    pub open spec fn with_instance(self, i: InstanceModel) -> HeapModel {
        HeapModel { instances: self.instances.push(i), ..self }
    }

    /// The entries of the hash at `h`; none if there is no such hash.
    pub open spec fn hash(self, h: usize) -> Entries {
        if h < self.hashes.len() {
            self.hashes[h as int]
        } else {
            Seq::empty()
        }
    }

    /// The heap with `key` set to `value` in the hash at `h`.
    pub open spec fn hash_put(self, h: usize, key: Value, value: Value) -> HeapModel {
        if h < self.hashes.len() {
            HeapModel {
                hashes: self.hashes.update(h as int, entry_put(self.hashes[h as int], key, value)),
                ..self
            }
        } else {
            self
        }
    }

    /// The fields of the instance at `i`; none if there is no such
    /// instance.
    pub open spec fn fields(self, i: usize) -> Bindings {
        if i < self.instances.len() {
            self.instances[i as int].fields
        } else {
            Seq::empty()
        }
    }

    /// The methods of the instance at `i`.
    pub open spec fn methods(self, i: usize) -> Bindings {
        if i < self.instances.len() {
            self.instances[i as int].methods
        } else {
            Seq::empty()
        }
    }

    /// The heap with the method `name` of the instance at `i` set to
    /// `value`.
    pub open spec fn method_put(self, i: usize, name: Seq<char>, value: Value) -> HeapModel {
        if i < self.instances.len() {
            HeapModel {
                instances: self.instances.update(
                    i as int,
                    InstanceModel {
                        methods: put(self.instances[i as int].methods, name, value),
                        ..self.instances[i as int]
                    },
                ),
                ..self
            }
        } else {
            self
        }
    }

    /// The heap with the field `name` of the instance at `i` set to
    /// `value`.
    pub open spec fn field_put(self, i: usize, name: Seq<char>, value: Value) -> HeapModel {
        if i < self.instances.len() {
            HeapModel {
                instances: self.instances.update(
                    i as int,
                    InstanceModel {
                        fields: put(self.instances[i as int].fields, name, value),
                        ..self.instances[i as int]
                    },
                ),
                ..self
            }
        } else {
            self
        }
    }
}

/// The heap.
pub struct Heap<'p> {
    hashes: Vec<Vec<(Object<'p>, Object<'p>)>>,
    instances: Vec<Instance<'p>>,
}

impl<'p> Heap<'p> {
    pub closed spec fn view(&self) -> HeapModel {
        HeapModel {
            hashes: self.hashes@.map_values(|h: Vec<(Object, Object)>| entries(h@)),
            instances: self.instances@.map_values(|i: Instance| i.view()),
        }
    }

    /// An empty heap.
    pub fn new() -> (heap: Heap<'p>)
        ensures
            heap.view() == (HeapModel { hashes: Seq::empty(), instances: Seq::empty() }),
    {
        let heap = Heap { hashes: Vec::new(), instances: Vec::new() };
        assert(heap.view().hashes =~= Seq::empty());
        assert(heap.view().instances =~= Seq::empty());
        heap
    }

    /// How many hashes there are.
    pub fn hash_count(&self) -> (n: usize)
        ensures
            n == self.view().hashes.len(),
    {
        self.hashes.len()
    }

    /// How many instances there are.
    pub fn instance_count(&self) -> (n: usize)
        ensures
            n == self.view().instances.len(),
    {
        self.instances.len()
    }

    /// Puts a new hash with the entries `e` on the heap and gives its
    /// place.
    pub fn new_hash(&mut self, e: Vec<(Object<'p>, Object<'p>)>) -> (h: usize)
        ensures
            h == old(self).view().hashes.len(),
            final(self).view() == old(self).view().with_hash(entries(e@)),
    {
        let h = self.hashes.len();
        self.hashes.push(e);
        assert(self.view().hashes =~= old(self).view().hashes.push(entries(e@)));
        h
    }

    /// Puts a new instance on the heap and gives its place.
    pub fn new_instance(&mut self, instance: Instance<'p>) -> (i: usize)
        ensures
            i == old(self).view().instances.len(),
            final(self).view() == old(self).view().with_instance(instance.view()),
    {
        let i = self.instances.len();
        self.instances.push(instance);
        assert(self.view().instances =~= old(self).view().instances.push(instance.view()));
        i
    }

    /// The value of `key` in the hash at `h`, copied.
    pub fn hash_get(&self, h: usize, key: &Object<'p>) -> (r: Option<Object<'p>>)
        ensures
            match r {
                Some(o) => Some(o.view()),
                None => None,
            } == entry_get(self.view().hash(h), key.view()),
    {
        if h < self.hashes.len() {
            match find_entry(&self.hashes[h], key) {
                Some(i) => Some(self.hashes[h][i].1.duplicate()),
                None => None,
            }
        } else {
            None
        }
    }

    /// Sets `key` to `value` in the hash at `h`.
    pub fn hash_put(&mut self, h: usize, key: Object<'p>, value: Object<'p>)
        ensures
            final(self).view() == old(self).view().hash_put(h, key.view(), value.view()),
    {
        if h < self.hashes.len() {
            let ghost before = self.view();
            let mut table: Vec<(Object<'p>, Object<'p>)> = Vec::new();
            std::mem::swap(&mut table, &mut self.hashes[h]);
            match find_entry(&table, &key) {
                Some(i) => {
                    table[i] = (key, value);
                },
                None => {
                    table.push((key, value));
                },
            }
            assert(entries(table@) =~= entry_put(before.hashes[h as int], key.view(), value.view()));
            self.hashes[h] = table;
            assert(self.view().hashes =~= before.hashes.update(
                h as int,
                entry_put(before.hashes[h as int], key.view(), value.view()),
            ));
            assert(self.view().instances =~= before.instances);
        }
    }

    /// The entries of the hash at `h`, copied.
    pub fn hash_entries(&self, h: usize) -> (r: Vec<(Object<'p>, Object<'p>)>)
        ensures
            entries(r@) == self.view().hash(h),
    {
        if h < self.hashes.len() {
            copy_entries(&self.hashes[h])
        } else {
            let r: Vec<(Object<'p>, Object<'p>)> = Vec::new();
            assert(entries(r@) =~= Seq::empty());
            r
        }
    }

    /// How many entries the hash at `h` has.
    pub fn hash_len(&self, h: usize) -> (n: usize)
        ensures
            n == self.view().hash(h).len(),
    {
        if h < self.hashes.len() {
            self.hashes[h].len()
        } else {
            0
        }
    }

    /// The fields of the instance at `i`, copied.
    pub fn fields_of(&self, i: usize) -> (r: Vec<(String, Object<'p>)>)
        ensures
            bindings(r@) == self.view().fields(i),
    {
        if i < self.instances.len() {
            copy_bindings(&self.instances[i].fields)
        } else {
            let r: Vec<(String, Object<'p>)> = Vec::new();
            assert(bindings(r@) =~= Seq::empty());
            r
        }
    }

    /// The methods of the instance at `i`, copied.
    pub fn methods_of(&self, i: usize) -> (r: Vec<(String, Object<'p>)>)
        ensures
            bindings(r@) == self.view().methods(i),
    {
        if i < self.instances.len() {
            copy_bindings(&self.instances[i].methods)
        } else {
            let r: Vec<(String, Object<'p>)> = Vec::new();
            assert(bindings(r@) =~= Seq::empty());
            r
        }
    }

    /// The value of the field `name` of the instance at `i`, copied.
    pub fn field_get(&self, i: usize, name: &String) -> (r: Option<Object<'p>>)
        ensures
            match r {
                Some(o) => Some(o.view()),
                None => None,
            } == lookup(self.view().fields(i), name@),
    {
        if i < self.instances.len() {
            fetch(&self.instances[i].fields, name)
        } else {
            assert(lookup(Seq::empty(), name@) is None);
            None
        }
    }

    /// The method `name` of the instance at `i`, copied.
    pub fn method_get(&self, i: usize, name: &String) -> (r: Option<Object<'p>>)
        ensures
            match r {
                Some(o) => Some(o.view()),
                None => None,
            } == lookup(self.view().methods(i), name@),
    {
        if i < self.instances.len() {
            fetch(&self.instances[i].methods, name)
        } else {
            assert(lookup(Seq::empty(), name@) is None);
            None
        }
    }

    /// Sets the field `name` of the instance at `i` to `value`.
    pub fn field_put(&mut self, i: usize, name: String, value: Object<'p>)
        ensures
            final(self).view() == old(self).view().field_put(i, name@, value.view()),
    {
        if i < self.instances.len() {
            let ghost before = self.view();
            let mut instance = Instance { fields: Vec::new(), methods: Vec::new() };
            std::mem::swap(&mut instance, &mut self.instances[i]);
            bind(&mut instance.fields, name, value);
            self.instances[i] = instance;
            assert(self.view().instances =~= before.instances.update(
                i as int,
                InstanceModel {
                    fields: put(before.instances[i as int].fields, name@, value.view()),
                    ..before.instances[i as int]
                },
            ));
            assert(self.view().hashes =~= before.hashes);
        }
    }

    /// Sets the method `name` of the instance at `i` to `value`.
    pub fn method_put(&mut self, i: usize, name: String, value: Object<'p>)
        ensures
            final(self).view() == old(self).view().method_put(i, name@, value.view()),
    {
        if i < self.instances.len() {
            let ghost before = self.view();
            let mut instance = Instance { fields: Vec::new(), methods: Vec::new() };
            std::mem::swap(&mut instance, &mut self.instances[i]);
            bind(&mut instance.methods, name, value);
            self.instances[i] = instance;
            assert(self.view().instances =~= before.instances.update(
                i as int,
                InstanceModel {
                    methods: put(before.instances[i as int].methods, name@, value.view()),
                    ..before.instances[i as int]
                },
            ));
            assert(self.view().hashes =~= before.hashes);
        }
    }
}

} // verus!
