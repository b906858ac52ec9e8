use lox_interpreter::envs::{bind, fetch, find, Env};
use lox_interpreter::heap::{copy_bindings, copy_entries, is_same_key, Heap, Instance};
use lox_interpreter::number::Number;
use lox_interpreter::objects::{duplicate_all, Object};

fn number(value: f64) -> Object<'static> {
    Object::Number(Number { bits: value.to_bits() })
}

fn text(value: &str) -> Object<'static> {
    Object::String(value.to_string())
}

#[test]
fn bindings_keep_one_entry_per_name() {
    let mut store: Vec<(String, Object<'static>)> = Vec::new();
    bind(&mut store, "a".to_string(), number(1.0));
    bind(&mut store, "b".to_string(), number(2.0));
    bind(&mut store, "a".to_string(), number(3.0));
    assert_eq!(store.len(), 2);
    assert_eq!(find(&store, &"a".to_string()), Some(0));
    assert_eq!(find(&store, &"b".to_string()), Some(1));
    assert_eq!(find(&store, &"c".to_string()), None);
    assert_eq!(fetch(&store, &"a".to_string()), Some(number(3.0)));
    assert_eq!(fetch(&store, &"c".to_string()), None);
}

#[test]
fn a_new_environment_binds_nothing() {
    let env: Env<'static> = Env::new();
    assert_eq!(env.depth(), 1);
    assert_eq!(env.get(&"a".to_string()), None);
    assert_eq!(env.get_current_class(), None);
}

#[test]
fn an_environment_from_bindings_holds_them() {
    let env = Env::from(vec![("a".to_string(), number(1.0)), ("b".to_string(), text("x"))]);
    assert_eq!(env.depth(), 1);
    assert_eq!(env.get(&"a".to_string()), Some(number(1.0)));
    assert_eq!(env.get(&"b".to_string()), Some(text("x")));
}

#[test]
fn lookup_walks_outward_and_the_innermost_binding_wins() {
    let mut env = Env::new();
    env.set_store("a".to_string(), number(1.0));
    env.set_store("b".to_string(), number(2.0));
    let mut env = Env::new_with_outer(env);
    assert_eq!(env.depth(), 2);
    env.set_store("a".to_string(), number(10.0));
    assert_eq!(env.get(&"a".to_string()), Some(number(10.0)));
    assert_eq!(env.get(&"b".to_string()), Some(number(2.0)));
    env.leave();
    assert_eq!(env.get(&"a".to_string()), Some(number(1.0)));
}

#[test]
fn assignment_reaches_the_scope_that_binds_the_name() {
    let mut env = Env::new();
    env.set_store("a".to_string(), number(1.0));
    env.enter();
    env.enter();
    env.set("a".to_string(), number(2.0));
    assert_eq!(env.get(&"a".to_string()), Some(number(2.0)));
    env.leave();
    env.leave();
    assert_eq!(env.depth(), 1);
    assert_eq!(env.get(&"a".to_string()), Some(number(2.0)));
}

#[test]
fn assignment_to_an_unbound_name_binds_it_in_the_innermost_scope() {
    let mut env = Env::new();
    env.enter();
    env.set("fresh".to_string(), number(5.0));
    assert_eq!(env.get(&"fresh".to_string()), Some(number(5.0)));
    env.leave();
    assert_eq!(env.get(&"fresh".to_string()), None);
}

#[test]
fn declaration_shadows_and_never_touches_the_outer_binding() {
    let mut env = Env::new();
    env.set_store("a".to_string(), number(1.0));
    env.enter();
    env.set_store("a".to_string(), number(2.0));
    env.set("a".to_string(), number(3.0));
    assert_eq!(env.get(&"a".to_string()), Some(number(3.0)));
    env.leave();
    assert_eq!(env.get(&"a".to_string()), Some(number(1.0)));
}

#[test]
fn the_last_scope_is_never_closed() {
    let mut env = Env::new();
    env.set_store("a".to_string(), number(1.0));
    env.leave();
    assert_eq!(env.depth(), 1);
    assert_eq!(env.get(&"a".to_string()), Some(number(1.0)));
}

#[test]
fn the_receiver_is_seen_from_inner_scopes() {
    let mut env = Env::new();
    assert_eq!(env.get_current_class(), None);
    env.enter();
    env.set_current_class(Object::ClassInstance { name: "C".to_string(), id: 4 });
    env.enter();
    assert_eq!(
        env.get_current_class(),
        Some(Object::ClassInstance { name: "C".to_string(), id: 4 })
    );
    env.leave();
    env.reset_current_class();
    assert_eq!(env.get_current_class(), None);
}

#[test]
fn keys_are_compared_by_kind_and_value() {
    assert!(is_same_key(&number(1.0), &number(1.0)));
    assert!(!is_same_key(&number(1.0), &number(2.0)));
    assert!(is_same_key(&number(0.0), &number(-0.0)));
    assert!(!is_same_key(&number(f64::NAN), &number(f64::NAN)));
    assert!(is_same_key(&text("a"), &text("a")));
    assert!(!is_same_key(&text("1"), &number(1.0)));
    assert!(is_same_key(&Object::Nil, &Object::Nil));
    assert!(is_same_key(&Object::Boolean(true), &Object::Boolean(true)));
    assert!(!is_same_key(&Object::Boolean(true), &Object::Boolean(false)));
    assert!(is_same_key(&Object::Index(3), &Object::Index(3)));
    assert!(!is_same_key(&Object::Index(3), &number(3.0)));
    assert!(is_same_key(&Object::Hash(2), &Object::Hash(2)));
    assert!(!is_same_key(&Object::Array(vec![]), &Object::Array(vec![])));
}

#[test]
fn a_hash_keeps_its_entries_in_the_order_of_their_first_insertion() {
    let mut heap: Heap<'static> = Heap::new();
    assert_eq!(heap.hash_count(), 0);
    let h = heap.new_hash(vec![(text("a"), number(1.0))]);
    assert_eq!(h, 0);
    assert_eq!(heap.hash_count(), 1);
    heap.hash_put(h, text("b"), number(2.0));
    heap.hash_put(h, text("a"), number(3.0));
    assert_eq!(heap.hash_len(h), 2);
    assert_eq!(heap.hash_get(h, &text("a")), Some(number(3.0)));
    assert_eq!(heap.hash_get(h, &text("b")), Some(number(2.0)));
    assert_eq!(heap.hash_get(h, &text("c")), None);
    assert_eq!(
        heap.hash_entries(h),
        vec![(text("a"), number(3.0)), (text("b"), number(2.0))]
    );
}

#[test]
fn a_hash_that_is_not_there_is_empty_and_stays_so() {
    let mut heap: Heap<'static> = Heap::new();
    heap.hash_put(7, text("a"), number(1.0));
    assert_eq!(heap.hash_count(), 0);
    assert_eq!(heap.hash_len(7), 0);
    assert_eq!(heap.hash_get(7, &text("a")), None);
    assert!(heap.hash_entries(7).is_empty());
}

#[test]
fn an_instance_has_fields_and_methods_by_name() {
    let mut heap: Heap<'static> = Heap::new();
    let first = heap.new_instance(Instance { fields: Vec::new(), methods: Vec::new() });
    let second = heap.new_instance(Instance {
        fields: vec![("x".to_string(), number(1.0))],
        methods: Vec::new(),
    });
    assert_eq!((first, second), (0, 1));
    assert_eq!(heap.instance_count(), 2);
    heap.field_put(first, "x".to_string(), number(7.0));
    heap.method_put(first, "m".to_string(), Object::Nil);
    assert_eq!(heap.field_get(first, &"x".to_string()), Some(number(7.0)));
    assert_eq!(heap.field_get(second, &"x".to_string()), Some(number(1.0)));
    assert_eq!(heap.field_get(first, &"y".to_string()), None);
    assert_eq!(heap.method_get(first, &"m".to_string()), Some(Object::Nil));
    assert_eq!(heap.method_get(second, &"m".to_string()), None);
    assert_eq!(heap.fields_of(first), vec![("x".to_string(), number(7.0))]);
    assert_eq!(heap.methods_of(first), vec![("m".to_string(), Object::Nil)]);
    assert_eq!(heap.field_get(9, &"x".to_string()), None);
}

#[test]
fn copies_are_equal_to_what_they_copy() {
    let values = vec![number(1.0), text("a"), Object::Array(vec![Object::Nil, Object::Index(2)])];
    assert_eq!(duplicate_all(&values), values);
    assert_eq!(values[2].duplicate(), values[2]);
    let pairs = vec![(text("k"), number(1.0)), (Object::Index(1), Object::Boolean(true))];
    assert_eq!(copy_entries(&pairs), pairs);
    let named = vec![("a".to_string(), number(1.0)), ("b".to_string(), text("x"))];
    assert_eq!(copy_bindings(&named), named);
}
