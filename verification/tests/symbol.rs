use lox_interpreter::symbol::{Scope, Symbol, SymbolTable};

fn symbol(name: &str, scope: Scope, index: usize) -> Symbol {
    Symbol::new(name.to_string(), scope, index)
}

#[test]
fn outermost_names_are_global_and_numbered_in_order() {
    let mut table = SymbolTable::new();
    assert!(table.is_outermost());
    assert_eq!(table.define("a".to_string()), symbol("a", Scope::Global, 0));
    assert_eq!(table.define("b".to_string()), symbol("b", Scope::Global, 1));
    assert_eq!(table.definitions(), 2);
    assert_eq!(table.resolve("a"), Some(symbol("a", Scope::Global, 0)));
    assert_eq!(table.resolve("b"), Some(symbol("b", Scope::Global, 1)));
    assert_eq!(table.resolve("c"), None);
}

#[test]
fn defining_a_name_again_gives_it_the_next_index() {
    let mut table = SymbolTable::new();
    table.define("a".to_string());
    assert_eq!(table.define("a".to_string()), symbol("a", Scope::Global, 1));
    assert_eq!(table.resolve("a"), Some(symbol("a", Scope::Global, 1)));
    assert_eq!(table.definitions(), 2);
}

#[test]
fn nested_names_are_local_and_numbered_from_zero() {
    let mut outer = SymbolTable::new();
    outer.define("a".to_string());
    let mut inner = SymbolTable::new_enclosed(outer);
    assert!(!inner.is_outermost());
    assert_eq!(inner.define("x".to_string()), symbol("x", Scope::Local, 0));
    assert_eq!(inner.define("y".to_string()), symbol("y", Scope::Local, 1));
    assert_eq!(inner.resolve("y"), Some(symbol("y", Scope::Local, 1)));
}

#[test]
fn globals_and_builtins_are_reached_as_they_are() {
    let mut outer = SymbolTable::new();
    outer.define("a".to_string());
    assert_eq!(outer.define_builtin(4, "len".to_string()), symbol("len", Scope::Builtin, 4));
    assert_eq!(outer.definitions(), 1);
    let mut inner = SymbolTable::new_enclosed(SymbolTable::new_enclosed(outer));
    assert_eq!(inner.resolve("a"), Some(symbol("a", Scope::Global, 0)));
    assert_eq!(inner.resolve("len"), Some(symbol("len", Scope::Builtin, 4)));
    assert!(inner.captured().is_empty());
}

#[test]
fn a_local_of_an_enclosing_scope_is_captured() {
    let mut middle = SymbolTable::new_enclosed(SymbolTable::new());
    middle.define("x".to_string());
    middle.define("y".to_string());
    let mut inner = SymbolTable::new_enclosed(middle);
    assert_eq!(inner.resolve("y"), Some(symbol("y", Scope::Free, 0)));
    assert_eq!(inner.resolve("x"), Some(symbol("x", Scope::Free, 1)));
    assert_eq!(
        inner.captured(),
        vec![symbol("y", Scope::Local, 1), symbol("x", Scope::Local, 0)]
    );
    // A captured name is bound from then on: resolving it again captures nothing more.
    assert_eq!(inner.resolve("y"), Some(symbol("y", Scope::Free, 0)));
    assert_eq!(inner.captured().len(), 2);
    assert_eq!(inner.definitions(), 0);
}

#[test]
fn resolving_leaves_the_enclosing_scopes_as_they_were() {
    let mut outermost = SymbolTable::new_enclosed(SymbolTable::new());
    outermost.define("x".to_string());
    let middle = SymbolTable::new_enclosed(outermost);
    let mut inner = SymbolTable::new_enclosed(middle);
    // The middle scope would capture `x`; as seen from the inner one that makes it free.
    assert_eq!(inner.resolve("x"), Some(symbol("x", Scope::Free, 0)));
    assert_eq!(inner.captured(), vec![symbol("x", Scope::Free, 0)]);
    let middle = inner.leave().unwrap();
    assert!(middle.captured().is_empty());
    assert!(middle.store.is_empty());
}

#[test]
fn a_function_name_is_bound_at_index_zero() {
    let mut table = SymbolTable::new_enclosed(SymbolTable::new());
    table.define("a".to_string());
    assert_eq!(table.define_function_name("f".to_string()), symbol("f", Scope::Function, 0));
    assert_eq!(table.resolve("f"), Some(symbol("f", Scope::Function, 0)));
    assert_eq!(table.definitions(), 1);
}

#[test]
fn define_free_records_the_original() {
    let mut table = SymbolTable::new_enclosed(SymbolTable::new());
    let original = symbol("v", Scope::Local, 3);
    assert_eq!(table.define_free(original.duplicate()), symbol("v", Scope::Free, 0));
    assert_eq!(table.captured(), vec![original]);
    assert_eq!(table.resolve("v"), Some(symbol("v", Scope::Free, 0)));
}

#[test]
fn leave_gives_the_enclosing_scope() {
    let mut outer = SymbolTable::new();
    outer.define("a".to_string());
    let inner = SymbolTable::new_enclosed(outer);
    let outer = inner.leave().unwrap();
    assert_eq!(outer.definitions(), 1);
    assert!(outer.leave().is_none());
}

#[test]
fn scopes_have_lower_case_labels() {
    assert_eq!(Scope::Global.label(), "global");
    assert_eq!(Scope::Local.label(), "local");
    assert_eq!(Scope::Builtin.label(), "builtin");
    assert_eq!(Scope::Free.label(), "free");
    assert_eq!(Scope::Function.label(), "function");
}
