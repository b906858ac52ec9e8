use lox_interpreter::evaluator::Evaluator;
use lox_interpreter::lexer::Lexing;
use lox_interpreter::number::{Number, NumberOp, NumberReply, NumberRequest};
use lox_interpreter::parser::Parser;
use lox_interpreter::semantics::RuntimeError;

fn kernel(request: NumberRequest) -> NumberReply {
    match request {
        NumberRequest::Parse(text) => NumberReply {
            number: Number { bits: text.parse::<f64>().unwrap_or(f64::NAN).to_bits() },
            text: String::new(),
        },
        NumberRequest::Format(n) => {
            NumberReply { number: n, text: format!("{}", f64::from_bits(n.bits)) }
        }
        NumberRequest::Binary(op, a, b) => {
            let (x, y) = (f64::from_bits(a.bits), f64::from_bits(b.bits));
            let r = match op {
                NumberOp::Add => x + y,
                NumberOp::Subtract => x - y,
                NumberOp::Multiply => x * y,
                NumberOp::Divide => x / y,
                NumberOp::Remainder => x % y,
            };
            NumberReply { number: Number { bits: r.to_bits() }, text: String::new() }
        }
    }
}

fn run_with(source: &str, verbose: bool) -> (Result<(), RuntimeError>, String) {
    let lex = Lexing::new(source);
    let mut parser = Parser::new(lex, kernel);
    let program = parser.parse();
    assert!(!parser.has_errors(), "{:?}", parser.errors());
    let mut evaluator = Evaluator::new(&program, verbose, kernel);
    let result = evaluator.evaluate();
    let written = evaluator.written().clone();
    (result, written)
}

fn output_of(source: &str) -> String {
    let (result, written) = run_with(source, false);
    assert_eq!(result, Ok(()), "{}", written);
    written
}

#[test]
fn prints_arithmetic_by_precedence() {
    assert_eq!(output_of("print 1 + 2 * 3;"), "7");
}

#[test]
fn concatenates_strings() {
    assert_eq!(output_of("var a = \"foo\"; var b = \"bar\"; print a + b;"), "foobar");
}

#[test]
fn recursive_function_computes_factorial() {
    assert_eq!(
        output_of("fun f(n) { if (n == 0) { return 1; } return n * f(n - 1); } print f(5);"),
        "120"
    );
}

#[test]
fn class_with_init_and_method() {
    assert_eq!(
        output_of(
            "class C { init(x) { this.x = x; } get() { return this.x; } } var c = new C(7); print c.get();"
        ),
        "7"
    );
}

#[test]
fn hash_insert_and_for_in() {
    let written = output_of(
        "var h = {\"a\": 1, \"b\": 2}; h[\"c\"] = 3; for (var k in h) { print k, \":\", h[k]; println(); }",
    );
    let mut lines: Vec<&str> = written.lines().collect();
    lines.sort();
    assert_eq!(lines, vec!["a:1", "b:2", "c:3"]);
}

#[test]
fn failed_assertion_writes_its_message() {
    let (result, written) = run_with("assert 1 > 2, \"nope\";", false);
    assert_eq!(result, Err(RuntimeError::AssertionFailed));
    assert_eq!(written, "nope\n");
}

#[test]
fn passing_assertion_is_silent() {
    assert_eq!(output_of("assert 2 > 1, \"nope\"; print 1;"), "1");
}

#[test]
fn undefined_variable_fails() {
    let (result, written) = run_with("print x;", false);
    assert_eq!(result, Err(RuntimeError::UndefinedVariable));
    assert_eq!(written, "Undefined variable 'x'.\n");
}

#[test]
fn type_mismatch_fails() {
    assert_eq!(run_with("print 1 + \"a\";", false).0, Err(RuntimeError::TypeMismatch));
    assert_eq!(run_with("print -\"a\";", false).0, Err(RuntimeError::TypeMismatch));
    assert_eq!(run_with("print 1 < \"a\";", false).0, Err(RuntimeError::TypeMismatch));
    assert_eq!(run_with("print true && 1;", false).0, Err(RuntimeError::TypeMismatch));
}

#[test]
fn builtin_arity_is_checked() {
    let (result, written) = run_with("len(1, 2);", false);
    assert_eq!(result, Err(RuntimeError::WrongArity));
    assert_eq!(written, "fun len: Expected 1 arguments but got 2.\n");
}

#[test]
fn calling_a_number_fails() {
    assert_eq!(run_with("var a = 1; a(2);", false).0, Err(RuntimeError::NotCallable));
}

#[test]
fn this_outside_a_method_fails() {
    assert_eq!(run_with("print this.x;", false).0, Err(RuntimeError::NoReceiver));
}

#[test]
fn missing_method_fails() {
    assert_eq!(
        run_with("class C { } var c = new C(); c.go();", false).0,
        Err(RuntimeError::NoSuchMethod)
    );
}

#[test]
fn array_index_past_the_end_fails() {
    assert_eq!(run_with("var a = [1]; print a[3];", false).0, Err(RuntimeError::IndexOutOfRange));
}

#[test]
fn equality_and_inequality() {
    assert_eq!(
        output_of("print 1 == 1, 1 == 2, \"a\" == \"a\", nil == nil, 1 == \"1\", 1 != \"1\", 1 != 1, true != false;"),
        "truefalsetruetruefalsetruefalsetrue"
    );
}

#[test]
fn comparisons_and_logic() {
    assert_eq!(
        output_of("print 1 < 2, 2 <= 2, 3 > 4, 4 >= 5, true && false, true || false;"),
        "truetruefalsefalsefalsetrue"
    );
}

#[test]
fn bang_on_each_kind() {
    assert_eq!(output_of("print !true, !nil, !0, !1, !\"\", !\"a\";"), "falsetruetruefalsetruefalse");
}

#[test]
fn arithmetic_operators() {
    assert_eq!(output_of("print 7 - 2, 3 * 4, 9 / 2, 7 % 4, -3, 0.1 + 0.2;"), "5124.53-30.30000000000000004");
}

#[test]
fn compound_assignment() {
    assert_eq!(output_of("var a = 10; a += 5; a -= 3; a *= 2; a /= 4; a %= 4; print a;"), "2");
}

#[test]
fn while_loop_counts() {
    assert_eq!(output_of("var i = 0; while (i < 3) { print i; i = i + 1; }"), "012");
}

#[test]
fn for_loop_counts() {
    assert_eq!(output_of("for (var i = 0; i < 3; i += 1) { print i; }"), "012");
}

#[test]
fn if_else_if_else() {
    let source = "fun pick(n) { if (n == 1) { return \"one\"; } else if (n == 2) { return \"two\"; } else { return \"many\"; } } print pick(1), pick(2), pick(3);";
    assert_eq!(output_of(source), "onetwomany");
}

#[test]
fn return_propagates_out_of_nested_ifs_and_loops() {
    let source = "fun find(n) { var i = 0; while (true) { if (i == n) { if (true) { return i; } } i = i + 1; } } print find(4);";
    assert_eq!(output_of(source), "4");
}

#[test]
fn switch_runs_first_match_only() {
    let source = "fun name(n) { switch n { case 1: return \"one\"; case 2: return \"two\"; default: return \"other\"; } } print name(2), name(1), name(9);";
    assert_eq!(output_of(source), "twooneother");
    assert_eq!(output_of("switch 1 { case 1: print \"a\"; case 2: print \"b\"; default: print \"c\"; }"), "a");
}

#[test]
fn blocks_have_their_own_scope() {
    assert_eq!(output_of("var a = 1; { var a = 2; print a; } print a;"), "21");
    assert_eq!(output_of("var a = 1; { a = 2; } print a;"), "2");
}

#[test]
fn a_call_leaves_the_callers_bindings_alone() {
    let source = "var a = 1; var b = 2; fun f(a) { var b = 10; a = 20; var c = 30; return a + b; } print f(5), a, b;";
    assert_eq!(output_of(source), "3012");
    let (result, _) = run_with("fun f() { var c = 1; } f(); print c;", false);
    assert_eq!(result, Err(RuntimeError::UndefinedVariable));
}

#[test]
fn a_call_may_assign_to_outer_bindings() {
    assert_eq!(output_of("var n = 0; fun bump() { n = n + 1; } bump(); bump(); print n;"), "2");
}

#[test]
fn missing_arguments_are_nil() {
    assert_eq!(output_of("fun f(a, b) { print a, b; } f(1);"), "1nil");
}

#[test]
fn function_values_and_calls() {
    assert_eq!(output_of("var f = fun(x) { return x * 2; }; print f(4);"), "8");
}

#[test]
fn builtins_work() {
    assert_eq!(output_of("print len(\"abc\"), len([1, 2]), len({\"a\": 1});"), "321");
    assert_eq!(output_of("print substr(\"hello\", 1, 3), substr(\"hello\", 2, 0);"), "elllo");
    assert_eq!(output_of("print start_with(\"hello\", \"he\"), start_with(\"hello\", \"lo\");"), "truefalse");
    assert_eq!(output_of("print type(1), type(\"a\"), type(nil), type(true), type([1]), type({});"), "numberstringnilbooleanarrayobject");
    assert_eq!(output_of("print typeis(1), typeis(\"a\");"), "NumberString");
    assert_eq!(output_of("print append([1], 2, 3);"), "[1, 2, 3]");
    assert_eq!(output_of("print intval(\" 42 \"), intval(3.9), intval(\"x\");"), "423nil");
    assert_eq!(output_of("print is_number(\"12\"), is_number(\"ab\"), is_str(\"'a'\"), is_str(\"a\");"), "truefalsetruefalse");
    assert_eq!(output_of("print strval(12) + \"!\", trim(\"  a b  \") + \"|\";"), "12!a b|");
    assert_eq!(output_of("println(1, \"a\", nil); print(2);"), "1 a nil\n2");
}

#[test]
fn indexing_arrays_hashes_and_strings() {
    assert_eq!(output_of("var a = [10, 20]; var h = {\"k\": 1}; print a[1], h[\"k\"], h[\"z\"], \"abc\"[1];"), "201nilb");
}

#[test]
fn values_print_in_their_forms() {
    assert_eq!(output_of("print [1, \"a\", nil, true], {\"a\": 1};"), "[1, a, nil, true]{a: 1, }");
    assert_eq!(output_of("fun f(a, b) { } print f, len;"), "fn(a, b)builtin function: len 1");
}

#[test]
fn class_fields_and_instances() {
    let source = "class P { var x = 1; var y = 2; sum() { return this.x + this.y; } set(v) { this.x = v; } } var p = new P(); p.set(5); print p.sum(), p.x, p.z;";
    assert_eq!(output_of(source), "75nil");
}

#[test]
fn methods_see_the_same_instance() {
    let source = "class C { init() { this.n = 0; } inc() { this.n = this.n + 1; return this.n; } twice() { this.inc(); return this.inc(); } } var c = new C(); print c.twice(), c.n;";
    assert_eq!(output_of(source), "22");
}

#[test]
fn hashes_are_shared_by_reference() {
    assert_eq!(output_of("var h = {}; var g = h; g[\"a\"] = 1; print h[\"a\"];"), "1");
}

#[test]
fn return_at_top_level_writes_its_value_when_asked() {
    assert_eq!(run_with("return 1 + 1;", true), (Ok(()), "2\n".to_string()));
    assert_eq!(run_with("return 1 + 1;", false), (Ok(()), "".to_string()));
    assert_eq!(run_with("fun f() { return 3; } f();", true), (Ok(()), "".to_string()));
}

#[test]
fn endless_loop_runs_out_of_fuel() {
    let lex = Lexing::new("while (true) { }");
    let mut parser = Parser::new(lex, kernel);
    let program = parser.parse();
    let mut evaluator = Evaluator::new(&program, false, kernel);
    evaluator.refuel(1000);
    assert_eq!(evaluator.evaluate(), Err(RuntimeError::StepLimit));
    assert_eq!(evaluator.fuel(), 0);
}

#[test]
fn statements_and_expressions_run_one_at_a_time() {
    let lex = Lexing::new("var a = 2; a * 21; print a; return a;");
    let mut parser = Parser::new(lex, kernel);
    let program = parser.parse();
    assert!(!parser.has_errors());
    let mut evaluator = Evaluator::new(&program, false, kernel);
    assert_eq!(evaluator.evaluate_stmt(&program[0]), Ok(None));
    let product = match &program[1] {
        lox_interpreter::ast::Stmt::Expr(e) => evaluator.evaluate_expr(e),
        other => panic!("{:?}", other),
    };
    assert_eq!(
        product,
        Ok(lox_interpreter::objects::Object::Number(Number { bits: 42.0f64.to_bits() }))
    );
    assert_eq!(evaluator.written(), "");
    assert_eq!(evaluator.evaluate_stmt(&program[2]), Ok(None));
    assert_eq!(evaluator.take_written(), "2");
    assert_eq!(evaluator.written(), "");
    assert_eq!(
        evaluator.evaluate_stmt(&program[3]),
        Ok(Some(lox_interpreter::objects::Object::Number(Number { bits: 2.0f64.to_bits() })))
    );
}

#[test]
fn a_function_sees_what_its_surroundings_hold_when_it_is_called() {
    assert_eq!(
        output_of(
            "var x = 1; fun get() { return x; } print get(); x = 2; print get(); \
             fun make() { var y = 10; fun inner() { return x + y; } return inner; } \
             var f = make(); x = 5; print x;"
        ),
        "125"
    );
}

#[test]
fn a_case_outside_a_switch_is_refused() {
    let program = vec![lox_interpreter::ast::Stmt::Default(Vec::new())];
    let mut evaluator = Evaluator::new(&program, false, kernel);
    assert_eq!(evaluator.evaluate(), Err(RuntimeError::Unsupported));
}
