use lox_interpreter::builtins::Builtins;
use lox_interpreter::compiler::Compiler;
use lox_interpreter::lexer::Lexing;
use lox_interpreter::lowering::CompileError;
use lox_interpreter::number::{Number, NumberOp, NumberReply, NumberRequest};
use lox_interpreter::objects::Object;
use lox_interpreter::opcode::Opcode;
use lox_interpreter::parser::Parser;

fn kernel(request: NumberRequest) -> NumberReply {
    match request {
        NumberRequest::Parse(text) => NumberReply {
            number: Number { bits: text.parse::<f64>().unwrap_or(f64::NAN).to_bits() },
            text: String::new(),
        },
        NumberRequest::Format(n) => {
            NumberReply { number: n, text: format!("{}", f64::from_bits(n.bits)) }
        }
        NumberRequest::Binary(op, a, b) => {
            let (x, y) = (f64::from_bits(a.bits), f64::from_bits(b.bits));
            let r = match op {
                NumberOp::Add => x + y,
                NumberOp::Subtract => x - y,
                NumberOp::Multiply => x * y,
                NumberOp::Divide => x / y,
                NumberOp::Remainder => x % y,
            };
            NumberReply { number: Number { bits: r.to_bits() }, text: String::new() }
        }
    }
}

fn compiled(code: &str) -> (Result<(), CompileError>, Compiler) {
    let lexer = Lexing::new(code);
    let mut parser = Parser::new(lexer, kernel);
    let program = parser.parse();
    assert!(!parser.has_errors(), "{:?}", parser.errors());
    let mut compiler = Compiler::new(program);
    let result = compiler.compile();
    (result, compiler)
}

fn test_compiler_code(code: &str) -> Vec<Opcode> {
    let (result, compiler) = compiled(code);
    assert_eq!(result, Ok(()));
    compiler.instructions
}

fn jumps_stay_inside(code: &[Opcode]) -> bool {
    code.iter().all(|op| match op {
        Opcode::Jump(t) | Opcode::JumpIfFalse(t) | Opcode::Assert(t) => *t <= code.len(),
        _ => true,
    })
}

#[test]
fn test_compiler() {
    let instractions = test_compiler_code("1 + 2;");
    assert_eq!(instractions.len(), 3);
    assert_eq!(
        instractions,
        vec![Opcode::LoadConstant(0), Opcode::LoadConstant(1), Opcode::Add,]
    );
}

#[test]
fn compiler_test_print() {
    let ins = test_compiler_code("print 1, 2;");
    assert_eq!(ins.len(), 3);
    assert_eq!(ins, vec![Opcode::LoadConstant(0), Opcode::LoadConstant(1), Opcode::Print(2),]);
}

#[test]
fn test_builtin() {
    let ins = test_compiler_code("len('hello');");
    let builtins = Builtins::new();
    assert_eq!(ins.len(), 3);
    assert_eq!(
        ins,
        vec![
            Opcode::GetBuiltin(builtins.get_index("len").unwrap()),
            Opcode::LoadConstant(0),
            Opcode::Call(1),
        ]
    );
}

#[test]
fn test_add() {
    let ins = test_compiler_code("1 + 2;");
    assert_eq!(ins.len(), 3);
    assert_eq!(ins, vec![Opcode::LoadConstant(0), Opcode::LoadConstant(1), Opcode::Add,]);
}

#[test]
fn test_if() {
    let ins = test_compiler_code("if (1 > 2) { print 'yes'; } else { print 'no'; }");
    let except = vec![
        Opcode::LoadConstant(0),
        Opcode::LoadConstant(1),
        Opcode::GreaterThan,
        Opcode::JumpIfFalse(7),
        Opcode::LoadConstant(2),
        Opcode::Print(1),
        Opcode::Jump(9),
        Opcode::LoadConstant(3),
        Opcode::Print(1),
    ];
    assert_eq!(ins.len(), except.len());
    assert_eq!(ins, except);
}

#[test]
fn test_if_with_elseif() {
    let ins = test_compiler_code(
        "if (1 > 2) { print 'yes'; } else if (1 < 2) { print 'no'; } else { print 'no'; }",
    );
    let except = vec![
        Opcode::LoadConstant(0),
        Opcode::LoadConstant(1),
        Opcode::GreaterThan,
        Opcode::JumpIfFalse(7),
        Opcode::LoadConstant(2),
        Opcode::Print(1),
        Opcode::Jump(16),
        Opcode::LoadConstant(3),
        Opcode::LoadConstant(4),
        Opcode::LessThan,
        Opcode::JumpIfFalse(14),
        Opcode::LoadConstant(5),
        Opcode::Print(1),
        Opcode::Jump(16),
        Opcode::LoadConstant(6),
        Opcode::Print(1),
    ];
    assert_eq!(ins.len(), except.len());
    assert_eq!(ins, except);
}

#[test]
fn test_assert() {
    let ins = test_compiler_code("assert 1 > 2, '1 is not greater than 2';");
    println!("{:?}", ins);
    let except = vec![
        Opcode::LoadConstant(0),
        Opcode::LoadConstant(1),
        Opcode::GreaterThan,
        Opcode::Assert(7),
        Opcode::LoadConstant(2),
        Opcode::Print(1),
        Opcode::Exit(3),
    ];
    assert_eq!(ins.len(), except.len());
    assert_eq!(ins, except);
}

#[test]
fn test_assert_with_var() {
    let ins = test_compiler_code("var a = 1; assert a > 2, '1 is not greater than 2';");
    let except = vec![
        Opcode::LoadConstant(0),
        Opcode::SetGlobal(0),
        Opcode::GetGlobal(0),
        Opcode::LoadConstant(1),
        Opcode::GreaterThan,
        Opcode::Assert(9),
        Opcode::LoadConstant(2),
        Opcode::Print(1),
        Opcode::Exit(3),
    ];
    assert_eq!(ins.len(), except.len());
    assert_eq!(ins, except);
}

#[test]
fn assert_without_message_passes_through() {
    assert_eq!(
        test_compiler_code("assert true;"),
        vec![Opcode::LoadConstant(0), Opcode::Assert(2)]
    );
}

#[test]
fn if_without_else_has_no_jump_to_the_end() {
    assert_eq!(
        test_compiler_code("if (true) { 1; }"),
        vec![Opcode::LoadConstant(0), Opcode::JumpIfFalse(3), Opcode::LoadConstant(1)]
    );
}

#[test]
fn if_chain_ends_at_one_position() {
    let ins = test_compiler_code(
        "if (1 > 2) { 1; } else if (1 > 3) { 2; } else if (1 > 4) { 3; } else { 4; }",
    );
    let ends: Vec<usize> = ins
        .iter()
        .filter_map(|op| match op {
            Opcode::Jump(t) => Some(*t),
            _ => None,
        })
        .collect();
    assert_eq!(ends, vec![ins.len(), ins.len(), ins.len()]);
    assert!(jumps_stay_inside(&ins));
}

#[test]
fn for_loop_jumps_back_to_its_condition() {
    let ins = test_compiler_code("for (var i = 0; i < 3; i += 1) { print i; }");
    assert_eq!(
        ins,
        vec![
            Opcode::LoadConstant(0),
            Opcode::SetGlobal(0),
            Opcode::GetGlobal(0),
            Opcode::LoadConstant(1),
            Opcode::LessThan,
            Opcode::JumpIfFalse(13),
            Opcode::GetGlobal(0),
            Opcode::Print(1),
            Opcode::GetGlobal(0),
            Opcode::LoadConstant(2),
            Opcode::Add,
            Opcode::SetGlobal(0),
            Opcode::Jump(2),
        ]
    );
    assert!(jumps_stay_inside(&ins));
}

#[test]
fn while_loop_jumps_back_to_its_condition() {
    let ins = test_compiler_code("var i = 0; while (i < 3) { i = i + 1; }");
    assert_eq!(
        ins,
        vec![
            Opcode::LoadConstant(0),
            Opcode::SetGlobal(0),
            Opcode::GetGlobal(0),
            Opcode::LoadConstant(1),
            Opcode::LessThan,
            Opcode::JumpIfFalse(12),
            Opcode::GetGlobal(0),
            Opcode::LoadConstant(2),
            Opcode::Add,
            Opcode::SetGlobal(0),
            Opcode::GetGlobal(0),
            Opcode::Jump(2),
        ]
    );
}

#[test]
fn assignment_stores_and_leaves_the_value() {
    assert_eq!(
        test_compiler_code("var a = 1; a = 2;"),
        vec![
            Opcode::LoadConstant(0),
            Opcode::SetGlobal(0),
            Opcode::LoadConstant(1),
            Opcode::SetGlobal(0),
            Opcode::GetGlobal(0),
        ]
    );
}

#[test]
fn operators_and_prefix() {
    assert_eq!(
        test_compiler_code("-(1 - 2 * 3 / 4 % 5) == 6;"),
        vec![
            Opcode::LoadConstant(0),
            Opcode::LoadConstant(1),
            Opcode::LoadConstant(2),
            Opcode::Multiply,
            Opcode::LoadConstant(3),
            Opcode::Divide,
            Opcode::LoadConstant(4),
            Opcode::Mod,
            Opcode::Minus,
            Opcode::Nagetive,
            Opcode::LoadConstant(5),
            Opcode::EqualEqual,
        ]
    );
}

#[test]
fn constants_are_pooled_in_order() {
    let (_, compiler) = compiled("print 1, 'a', true, nil;");
    assert_eq!(
        compiler.constants,
        vec![
            Object::Number(Number { bits: 1.0f64.to_bits() }),
            Object::String("a".to_string()),
            Object::Boolean(true),
            Object::Nil
        ]
    );
}

#[test]
fn function_becomes_a_constant_and_a_closure() {
    let (result, compiler) = compiled("fun id(x) { return x; } id(1);");
    assert_eq!(result, Ok(()));
    assert_eq!(
        compiler.instructions,
        vec![
            Opcode::LoadConstant(0),
            Opcode::Closure(0, 0),
            Opcode::SetGlobal(0),
            Opcode::GetGlobal(0),
            Opcode::LoadConstant(1),
            Opcode::Call(1),
        ]
    );
    assert_eq!(
        compiler.constants[0],
        Object::CompiledFunction { start: 0, len: 2, num_locals: 1, num_parameters: 1 }
    );
    let (main_start, all) = compiler.get_instructions();
    assert_eq!(main_start, 2);
    assert_eq!(all[..2], [Opcode::GetLocal(0), Opcode::ReturnValue]);
    assert_eq!(all.len(), 8);
}

#[test]
fn function_refers_to_itself_and_to_globals() {
    let (result, compiler) = compiled("var g = 1; fun f(n) { return f(g + n); }");
    assert_eq!(result, Ok(()));
    let (main_start, all) = compiler.get_instructions();
    assert_eq!(
        all[..main_start],
        [
            Opcode::CurrentClosure,
            Opcode::GetGlobal(0),
            Opcode::GetLocal(0),
            Opcode::Add,
            Opcode::Call(1),
            Opcode::ReturnValue
        ]
    );
}

#[test]
fn inner_function_captures_outer_local() {
    let (result, compiler) = compiled("fun outer(a) { fun inner() { return a; } }");
    assert_eq!(result, Ok(()));
    let (main_start, all) = compiler.get_instructions();
    assert_eq!(
        all[..main_start],
        [
            Opcode::GetFree(0),
            Opcode::ReturnValue,
            Opcode::GetLocal(0),
            Opcode::LoadConstant(0),
            Opcode::Closure(0, 1),
            Opcode::SetLocal(1),
        ]
    );
}

#[test]
fn unresolved_and_unsupported_are_refused() {
    assert_eq!(compiled("print x;").0, Err(CompileError::UnresolvedSymbol));
    assert_eq!(compiled("x = 1;").0, Err(CompileError::UnresolvedSymbol));
    assert_eq!(compiled("var a = [1];").0, Err(CompileError::Unsupported));
    assert_eq!(compiled("class C { }").0, Err(CompileError::Unsupported));
    assert_eq!(compiled("print !true;").0, Err(CompileError::Unsupported));
    assert_eq!(compiled("print 1 <= 2;").0, Err(CompileError::Unsupported));
}

#[test]
fn emitted_instructions_follow_one_another() {
    let mut compiler = Compiler::new(Vec::new());
    compiler.emit_load_constant(4);
    compiler.emit_load_constant(5);
    compiler.emit_add();
    assert_eq!(compiler.emit_return_position(Opcode::JumpIfFalse(0)), 3);
    compiler.emit(Opcode::Pop);
    assert_eq!(compiler.here(), 5);
    assert_eq!(
        compiler.instructions,
        vec![
            Opcode::LoadConstant(4),
            Opcode::LoadConstant(5),
            Opcode::Add,
            Opcode::JumpIfFalse(0),
            Opcode::Pop
        ]
    );
    assert_eq!(compiler.get_instructions(), (0, compiler.instructions.clone()));
    assert!(compiler.get_constants().is_empty());
}

#[test]
fn a_full_scope_takes_no_more_names() {
    let lexer = Lexing::new("var a = 1;");
    let mut parser = Parser::new(lexer, kernel);
    let program = parser.parse();
    let mut compiler = Compiler::new(program);
    compiler.symbols.num_definitions = usize::MAX;
    assert_eq!(compiler.compile(), Err(CompileError::TooManySymbols));
}
