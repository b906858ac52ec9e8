use lox_interpreter::builtins::{
    call_builtin, new_builtins, parse_index, trim_string, Builtins, BUILTIN_COUNT,
};
use lox_interpreter::display::{push_signed, value_string};
use lox_interpreter::heap::{Heap, Instance};
use lox_interpreter::number::{Number, NumberOp, NumberReply, NumberRequest};
use lox_interpreter::objects::Object;

fn kernel(request: NumberRequest) -> NumberReply {
    match request {
        NumberRequest::Parse(text) => NumberReply {
            number: Number { bits: text.parse::<f64>().unwrap_or(f64::NAN).to_bits() },
            text: String::new(),
        },
        NumberRequest::Format(n) => {
            NumberReply { number: n, text: format!("{}", f64::from_bits(n.bits)) }
        }
        NumberRequest::Binary(op, a, b) => {
            let (x, y) = (f64::from_bits(a.bits), f64::from_bits(b.bits));
            let r = match op {
                NumberOp::Add => x + y,
                NumberOp::Subtract => x - y,
                NumberOp::Multiply => x * y,
                NumberOp::Divide => x / y,
                NumberOp::Remainder => x % y,
            };
            NumberReply { number: Number { bits: r.to_bits() }, text: String::new() }
        }
    }
}

fn number(value: f64) -> Object<'static> {
    Object::Number(Number { bits: value.to_bits() })
}

fn text(value: &str) -> Object<'static> {
    Object::String(value.to_string())
}

fn call(name: &str, args: Vec<Object<'static>>) -> (Object<'static>, String) {
    let heap = Heap::new();
    call_in(name, args, &heap)
}

fn call_in(
    name: &str,
    args: Vec<Object<'static>>,
    heap: &Heap<'static>,
) -> (Object<'static>, String) {
    let index = Builtins::new().get_index(name).unwrap();
    let mut out = String::new();
    let result = call_builtin(index, &args, heap, &mut out, &kernel);
    (result, out)
}

fn result_of(name: &str, args: Vec<Object<'static>>) -> Object<'static> {
    let (result, out) = call(name, args);
    assert_eq!(out, "");
    result
}

#[test]
fn the_registry_is_sorted_by_name() {
    let names = [
        "append",
        "intval",
        "is_number",
        "is_str",
        "len",
        "print",
        "println",
        "start_with",
        "strval",
        "substr",
        "trim",
        "type",
        "typeis",
    ];
    assert_eq!(names.len(), BUILTIN_COUNT);
    let builtins = Builtins::new();
    for (i, name) in names.iter().enumerate() {
        assert_eq!(builtins.get_index(name), Some(i));
        assert_eq!(builtins.get_name(i), Some(name.to_string()));
    }
    assert_eq!(builtins.get_index("nothing"), None);
    assert_eq!(builtins.get_name(BUILTIN_COUNT), None);
    assert_eq!(builtins.get_by_index(BUILTIN_COUNT), None);
    assert_eq!(builtins.get("nothing"), None);
}

#[test]
fn each_builtin_has_its_arity() {
    let builtins = Builtins::new();
    let arities = [
        ("append", -1),
        ("intval", 1),
        ("is_number", 1),
        ("is_str", 1),
        ("len", 1),
        ("print", 1),
        ("println", -1),
        ("start_with", 2),
        ("strval", 1),
        ("substr", 3),
        ("trim", 1),
        ("type", 1),
        ("typeis", 1),
    ];
    for (i, (name, arity)) in arities.iter().enumerate() {
        let expected = Object::Builtin(name.to_string(), *arity, i);
        assert_eq!(builtins.get(name), Some(expected.duplicate()));
        assert_eq!(builtins.get_by_index(i), Some(expected));
    }
}

#[test]
fn the_builtins_as_bindings_are_in_registry_order() {
    let bindings = new_builtins();
    let builtins = Builtins::new();
    assert_eq!(bindings.len(), BUILTIN_COUNT);
    for (i, (name, value)) in bindings.iter().enumerate() {
        assert_eq!(builtins.get_index(name), Some(i));
        assert_eq!(Some(value.duplicate()), builtins.get_by_index(i));
    }
}

#[test]
fn print_writes_and_println_spaces_and_ends_the_line() {
    assert_eq!(call("print", vec![number(7.0)]), (Object::Nil, "7".to_string()));
    assert_eq!(
        call("println", vec![number(1.0), text("a"), Object::Boolean(true), Object::Nil]),
        (Object::Nil, "1 a true nil\n".to_string())
    );
    assert_eq!(call("println", vec![]), (Object::Nil, "\n".to_string()));
}

#[test]
fn len_counts_bytes_elements_and_entries() {
    assert_eq!(result_of("len", vec![text("hello")]), number(5.0));
    assert_eq!(result_of("len", vec![text("")]), number(0.0));
    assert_eq!(result_of("len", vec![text("é")]), number(2.0));
    assert_eq!(result_of("len", vec![Object::Array(vec![Object::Nil, Object::Nil])]), number(2.0));
    assert_eq!(result_of("len", vec![number(3.0)]), Object::Nil);
    let mut heap = Heap::new();
    let h = heap.new_hash(vec![(text("a"), number(1.0)), (text("b"), number(2.0))]);
    assert_eq!(call_in("len", vec![Object::Hash(h)], &heap).0, number(2.0));
}

#[test]
fn append_adds_to_an_array() {
    assert_eq!(
        result_of("append", vec![Object::Array(vec![number(1.0)]), number(2.0), text("x")]),
        Object::Array(vec![number(1.0), number(2.0), text("x")])
    );
    assert_eq!(result_of("append", vec![]), Object::Nil);
    assert_eq!(result_of("append", vec![number(1.0)]), number(1.0));
    assert_eq!(result_of("append", vec![Object::Nil, number(2.0)]), Object::Array(vec![number(2.0)]));
}

#[test]
fn intval_takes_the_integer_part_or_reads_digits() {
    assert_eq!(result_of("intval", vec![number(3.75)]), Object::Index(3));
    assert_eq!(result_of("intval", vec![number(-2.0)]), Object::Index(0));
    assert_eq!(result_of("intval", vec![text(" 42 ")]), Object::Index(42));
    assert_eq!(result_of("intval", vec![text("+7")]), Object::Index(7));
    assert_eq!(result_of("intval", vec![text("4x")]), Object::Nil);
    assert_eq!(result_of("intval", vec![text("")]), Object::Nil);
    assert_eq!(result_of("intval", vec![Object::Nil]), Object::Nil);
}

#[test]
fn is_number_follows_intval() {
    assert_eq!(result_of("is_number", vec![number(1.5)]), Object::Boolean(true));
    assert_eq!(result_of("is_number", vec![text("12")]), Object::Boolean(true));
    assert_eq!(result_of("is_number", vec![text("a")]), Object::Boolean(false));
    assert_eq!(result_of("is_number", vec![Object::Nil]), Object::Boolean(false));
}

#[test]
fn is_str_looks_for_a_leading_quote() {
    assert_eq!(result_of("is_str", vec![text("\"a\"")]), Object::Boolean(true));
    assert_eq!(result_of("is_str", vec![text("'a'")]), Object::Boolean(true));
    assert_eq!(result_of("is_str", vec![text("a")]), Object::Boolean(false));
    assert_eq!(result_of("is_str", vec![text("")]), Object::Boolean(false));
    assert_eq!(result_of("is_str", vec![number(1.0)]), Object::Boolean(false));
}

#[test]
fn start_with_tests_a_prefix() {
    assert_eq!(result_of("start_with", vec![text("hello"), text("he")]), Object::Boolean(true));
    assert_eq!(result_of("start_with", vec![text("hello"), text("")]), Object::Boolean(true));
    assert_eq!(result_of("start_with", vec![text("hello"), text("lo")]), Object::Boolean(false));
    assert_eq!(result_of("start_with", vec![text("he"), text("hello")]), Object::Boolean(false));
    assert_eq!(result_of("start_with", vec![text("hello"), number(1.0)]), Object::Nil);
}

#[test]
fn substr_cuts_by_positions() {
    assert_eq!(result_of("substr", vec![text("hello"), number(1.0), number(3.0)]), text("el"));
    assert_eq!(result_of("substr", vec![text("hello"), number(2.0), number(0.0)]), text("llo"));
    assert_eq!(
        result_of("substr", vec![text("hello"), Object::Index(0), Object::Index(5)]),
        text("hello")
    );
    assert_eq!(result_of("substr", vec![text("hello"), number(3.0), number(2.0)]), Object::Nil);
    assert_eq!(result_of("substr", vec![text("hello"), number(0.0), number(6.0)]), Object::Nil);
    assert_eq!(result_of("substr", vec![text("hello"), number(6.0), number(0.0)]), Object::Nil);
    assert_eq!(result_of("substr", vec![text("hello"), number(1.0), Object::Index(3)]), Object::Nil);
    assert_eq!(result_of("substr", vec![number(1.0), number(1.0), number(3.0)]), Object::Nil);
}

#[test]
fn trim_strips_spaces_at_both_ends() {
    assert_eq!(result_of("trim", vec![text("  a b \t\n")]), text("a b"));
    assert_eq!(result_of("trim", vec![text("   ")]), text(""));
    assert_eq!(result_of("trim", vec![text("ab")]), text("ab"));
    assert_eq!(result_of("trim", vec![number(1.0)]), Object::Nil);
    assert_eq!(trim_string(&" \r x \x0b\x0c".to_string()), "x");
}

#[test]
fn parse_index_reads_digits_only() {
    assert_eq!(parse_index(&"0".to_string()), Some(0));
    assert_eq!(parse_index(&"0012".to_string()), Some(12));
    assert_eq!(parse_index(&"+5".to_string()), Some(5));
    assert_eq!(parse_index(&"18446744073709551615".to_string()), Some(usize::MAX));
    assert_eq!(parse_index(&"18446744073709551616".to_string()), None);
    assert_eq!(parse_index(&"-5".to_string()), None);
    assert_eq!(parse_index(&"+".to_string()), None);
    assert_eq!(parse_index(&"1.5".to_string()), None);
    assert_eq!(parse_index(&"".to_string()), None);
}

#[test]
fn strval_gives_the_printed_form() {
    assert_eq!(result_of("strval", vec![number(2.5)]), text("2.5"));
    assert_eq!(result_of("strval", vec![Object::Boolean(false)]), text("false"));
    assert_eq!(result_of("strval", vec![Object::Array(vec![number(1.0), text("a")])]), text("[1, a]"));
}

#[test]
fn type_and_typeis_name_the_kind() {
    let cases: Vec<(Object<'static>, &str, &str)> = vec![
        (text("a"), "string", "String"),
        (number(1.0), "number", "Number"),
        (Object::Index(1), "number", "Index"),
        (Object::Boolean(true), "boolean", "Boolean"),
        (Object::Nil, "nil", "Nil"),
        (Object::Array(vec![]), "array", "Array"),
        (Object::Hash(0), "object", "Hash"),
        (Object::Builtin("len".to_string(), 1, 4), "builtin", "Builtin"),
        (Object::ClassInstance { name: "C".to_string(), id: 0 }, "class_instance", "ClassInstance"),
        (Object::Closure { func: 0, free_vars: vec![] }, "function", "Closure"),
    ];
    for (value, word, kind) in cases {
        assert_eq!(result_of("type", vec![value.duplicate()]), text(word));
        assert_eq!(result_of("typeis", vec![value]), text(kind));
    }
}

#[test]
fn a_builtin_with_the_wrong_number_of_arguments_gives_nil() {
    assert_eq!(result_of("len", vec![]), Object::Nil);
    assert_eq!(result_of("len", vec![text("a"), text("b")]), Object::Nil);
    assert_eq!(result_of("substr", vec![text("a")]), Object::Nil);
    assert_eq!(result_of("start_with", vec![text("a")]), Object::Nil);
}

#[test]
fn values_have_printed_forms() {
    let mut heap: Heap<'static> = Heap::new();
    let h = heap.new_hash(vec![(text("a"), number(1.0)), (number(2.0), Object::Nil)]);
    let i = heap.new_instance(Instance {
        fields: vec![("x".to_string(), number(7.0))],
        methods: Vec::new(),
    });
    let show = |v: Object<'static>| value_string(&v, &heap, &kernel);
    assert_eq!(show(Object::Boolean(true)), "true");
    assert_eq!(show(Object::Nil), "nil");
    assert_eq!(show(number(120.0)), "120");
    assert_eq!(show(number(0.5)), "0.5");
    assert_eq!(show(Object::Index(12)), "12");
    assert_eq!(show(text("a b")), "a b");
    assert_eq!(show(Object::Array(vec![number(1.0), Object::Array(vec![])])), "[1, []]");
    assert_eq!(show(Object::ReturnValue(Box::new(number(3.0)))), "3");
    assert_eq!(show(Object::Hash(h)), "{a: 1, 2: nil, }");
    assert_eq!(show(Object::Hash(9)), "{}");
    assert_eq!(show(Object::Builtin("len".to_string(), 1, 4)), "builtin function: len 1");
    assert_eq!(show(Object::Builtin("append".to_string(), -1, 0)), "builtin function: append -1");
    assert_eq!(
        show(Object::ClassInstance { name: "C".to_string(), id: i }),
        "instance of class C {\n\tx: 7\n}"
    );
    assert_eq!(
        show(Object::CompiledFunction { start: 0, len: 1, num_locals: 0, num_parameters: 0 }),
        "compiled function"
    );
    assert_eq!(show(Object::Closure { func: 0, free_vars: vec![] }), "closure");
}

#[test]
fn a_hash_that_holds_itself_prints_to_a_bounded_depth() {
    let mut heap: Heap<'static> = Heap::new();
    let h = heap.new_hash(Vec::new());
    heap.hash_put(h, text("me"), Object::Hash(h));
    assert_eq!(value_string(&Object::Hash(h), &heap, &kernel), "{me: ..., }");
}

#[test]
fn signed_numbers_are_written_with_their_sign() {
    let mut out = String::new();
    push_signed(&mut out, -1);
    out.push(' ');
    push_signed(&mut out, 0);
    out.push(' ');
    push_signed(&mut out, 2147483647);
    out.push(' ');
    push_signed(&mut out, -2147483648);
    assert_eq!(out, "-1 0 2147483647 -2147483648");
}
