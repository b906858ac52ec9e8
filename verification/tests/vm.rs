use lox_interpreter::compiler::Compiler;
use lox_interpreter::evaluator::Evaluator;
use lox_interpreter::lexer::Lexing;
use lox_interpreter::machine::{Status, VmError};
use lox_interpreter::number::{Number, NumberOp, NumberReply, NumberRequest};
use lox_interpreter::objects::Object;
use lox_interpreter::opcode::Opcode;
use lox_interpreter::parser::Parser;
use lox_interpreter::vm::VM;

fn kernel(request: NumberRequest) -> NumberReply {
    match request {
        NumberRequest::Parse(text) => NumberReply {
            number: Number { bits: text.parse::<f64>().unwrap_or(f64::NAN).to_bits() },
            text: String::new(),
        },
        NumberRequest::Format(n) => {
            NumberReply { number: n, text: format!("{}", f64::from_bits(n.bits)) }
        }
        NumberRequest::Binary(op, a, b) => {
            let (x, y) = (f64::from_bits(a.bits), f64::from_bits(b.bits));
            let r = match op {
                NumberOp::Add => x + y,
                NumberOp::Subtract => x - y,
                NumberOp::Multiply => x * y,
                NumberOp::Divide => x / y,
                NumberOp::Remainder => x % y,
            };
            NumberReply { number: Number { bits: r.to_bits() }, text: String::new() }
        }
    }
}

fn number(value: f64) -> Object<'static> {
    Object::Number(Number { bits: value.to_bits() })
}

fn run_code(code: &str) -> (Result<Object<'static>, VmError>, String, Status) {
    let lexer = Lexing::new(code);
    let mut parser = Parser::new(lexer, kernel);
    let program = parser.parse();
    assert!(!parser.has_errors(), "{:?}", parser.errors());
    let mut compiler = Compiler::new(program);
    assert_eq!(compiler.compile(), Ok(()));
    let (l, codes) = compiler.get_instructions();
    let mut vm = VM::new((l, codes), kernel);
    vm.define_constants(compiler.get_constants());
    let result = vm.run();
    let written = vm.written().clone();
    (result, written, vm.status())
}

fn test_vm_code(code: &str) -> Object<'static> {
    run_code(code).0.unwrap()
}

fn machine(codes: Vec<Opcode>, constants: Vec<Object<'static>>) -> VM<'static, fn(NumberRequest) -> NumberReply> {
    let mut vm = VM::new((0, codes), kernel as fn(NumberRequest) -> NumberReply);
    vm.define_constants(constants);
    vm
}

#[test]
fn test_vm() {
    let result = test_vm_code("1 + 2;");
    assert_eq!(result, number(3.0));
}

#[test]
fn vm_test_nagetive_number() {
    let result = test_vm_code("-2;");
    assert_eq!(result, number(-2.0));
}

#[test]
fn vm_test_print() {
    let result = test_vm_code("print 1, 2;");
    assert_eq!(result, Object::Nil);
}

#[test]
fn test_println() {
    let result = test_vm_code("println(1);");
    assert_eq!(result, Object::Nil);
}

#[test]
fn test_println_var() {
    let result = test_vm_code("var a = 1; println(a);");
    assert_eq!(result, Object::Nil);
}

#[test]
fn print_writes_in_order() {
    assert_eq!(run_code("print 1, 2, \"a\";").1, "12a");
    assert_eq!(run_code("var a = 1; println(a, 2);").1, "1 2\n");
}

#[test]
fn arithmetic_and_comparison() {
    assert_eq!(test_vm_code("7 - 2 * 3;"), number(1.0));
    assert_eq!(test_vm_code("9 / 2;"), number(4.5));
    assert_eq!(test_vm_code("7 % 4;"), number(3.0));
    assert_eq!(test_vm_code("1 < 2;"), Object::Boolean(true));
    assert_eq!(test_vm_code("1 > 2;"), Object::Boolean(false));
    assert_eq!(test_vm_code("2 == 2;"), Object::Boolean(true));
}

#[test]
fn type_error_in_arithmetic_gives_nil() {
    assert_eq!(test_vm_code("1 + \"a\";"), Object::Nil);
    assert_eq!(test_vm_code("\"a\" < 1;"), Object::Nil);
}

#[test]
fn globals_hold_values() {
    assert_eq!(test_vm_code("var a = 2; var b = 3; a * b;"), number(6.0));
    assert_eq!(test_vm_code("var a = 2; a = a + 1; a;"), number(3.0));
    assert_eq!(test_vm_code("var a = 2; a += 5;  a;"), number(7.0));
}

#[test]
fn if_chain_takes_the_first_true_arm() {
    let source = "var n = 2; if (n == 1) { print \"one\"; } else if (n == 2) { print \"two\"; } else { print \"many\"; }";
    assert_eq!(run_code(source).1, "two");
    assert_eq!(run_code("if (1 > 2) { print \"yes\"; } else { print \"no\"; }").1, "no");
    assert_eq!(run_code("if (1 < 2) { print \"yes\"; }").1, "yes");
}

#[test]
fn loops_run() {
    assert_eq!(run_code("for (var i = 0; i < 3; i += 1) { print i; }").1, "012");
    assert_eq!(run_code("var i = 0; while (i < 3) { print i; i += 1; }").1, "012");
}

#[test]
fn failed_assertion_stops_the_machine() {
    let (result, written, status) = run_code("assert 1 > 2, \"nope\"; print 1;");
    assert_eq!(result, Err(VmError::AssertionFailed));
    assert_eq!(written, "");
    assert_eq!(status, Status::Failed(VmError::AssertionFailed));
    assert_eq!(run_code("assert 2 > 1, \"nope\"; print 1;").1, "1");
}

#[test]
fn exit_ends_the_run_with_its_code() {
    let mut vm = machine(vec![Opcode::LoadConstant(0), Opcode::Exit(3), Opcode::Pop], vec![number(1.0)]);
    assert_eq!(vm.run(), Ok(number(1.0)));
    assert_eq!(vm.status(), Status::Exited(3));
}

#[test]
fn underflow_and_bad_operands_fail() {
    assert_eq!(machine(vec![Opcode::Add], vec![]).run(), Err(VmError::StackUnderflow));
    assert_eq!(machine(vec![Opcode::Pop], vec![]).run(), Err(VmError::StackUnderflow));
    assert_eq!(machine(vec![Opcode::LoadConstant(0)], vec![]).run(), Err(VmError::BadOperand));
    assert_eq!(machine(vec![Opcode::GetGlobal(70000)], vec![]).run(), Err(VmError::BadOperand));
    assert_eq!(machine(vec![Opcode::GetBuiltin(99)], vec![]).run(), Err(VmError::BadOperand));
    assert_eq!(machine(vec![Opcode::Return], vec![]).run(), Err(VmError::BadOperand));
    assert_eq!(
        machine(vec![Opcode::LoadConstant(0), Opcode::Call(0)], vec![Object::Nil]).run(),
        Err(VmError::NotCallable)
    );
}

#[test]
fn step_limit_is_reported() {
    let mut vm = machine(vec![Opcode::Jump(0)], vec![]);
    vm.run_steps(1000);
    assert_eq!(vm.status(), Status::Running);
}

#[test]
fn closure_enters_and_return_comes_back() {
    let codes = vec![
        Opcode::GetFree(0),
        Opcode::GetFree(1),
        Opcode::Add,
        Opcode::Return,
        Opcode::LoadConstant(0),
        Opcode::SetGlobal(0),
        Opcode::LoadConstant(1),
        Opcode::LoadConstant(2),
        Opcode::Closure(0, 2),
        Opcode::LoadConstant(1),
        Opcode::Add,
    ];
    let constants = vec![
        Object::CompiledFunction { start: 0, len: 4, num_locals: 2, num_parameters: 2 },
        number(10.0),
        number(5.0),
    ];
    let mut vm = VM::new((4, codes), kernel);
    vm.define_constants(constants);
    assert_eq!(vm.run(), Ok(number(25.0)));
    assert_eq!(vm.sp(), 1);
}

#[test]
fn call_of_a_compiled_function() {
    let codes = vec![
        Opcode::GetLocal(0),
        Opcode::GetLocal(0),
        Opcode::Multiply,
        Opcode::ReturnValue,
        Opcode::LoadConstant(0),
        Opcode::LoadConstant(1),
        Opcode::Call(1),
    ];
    let constants = vec![
        Object::CompiledFunction { start: 0, len: 4, num_locals: 1, num_parameters: 1 },
        number(7.0),
    ];
    let mut vm = VM::new((4, codes), kernel);
    vm.define_constants(constants);
    assert_eq!(vm.run(), Ok(number(49.0)));
}

#[test]
fn evaluator_and_machine_write_the_same() {
    let sources = [
        "print 1 + 2 * 3;",
        "var a = 2; var b = 3; print a * b, a - b;",
        "var i = 0; while (i < 4) { print i; i += 1; }",
        "for (var i = 0; i < 3; i += 1) { if (i == 1) { print \"one\"; } else { print i; } }",
        "var n = 5; var r = 1; while (n > 0) { r = r * n; n = n - 1; } print r;",
        "println(1, 2); print len(\"abc\");",
    ];
    for source in sources {
        let lexer = Lexing::new(source);
        let mut parser = Parser::new(lexer, kernel);
        let program = parser.parse();
        let mut evaluator = Evaluator::new(&program, false, kernel);
        assert_eq!(evaluator.evaluate(), Ok(()));
        assert_eq!(evaluator.written(), &run_code(source).1, "{}", source);
    }
}
