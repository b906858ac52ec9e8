//! What the virtual machine does: the meaning of each instruction as a
//! function from one state of the machine to the next.

use crate::builtins::{builtin_output, builtin_result, builtin_value, BUILTIN_COUNT};
use crate::display::value_into;
use crate::heap::HeapModel;
use crate::number::{Arithmetic, NumberOp};
use crate::objects::Value;
use crate::opcode::Instruction;
use vstd::prelude::*;

verus! {

/// How many globals the machine has room for.
pub const GLOBALS_SIZE: usize = 65536;

/// Why the machine stopped before the end of its code.
#[derive(Debug, Clone, Copy, PartialEq, Eq, Structural)]
pub enum VmError {
    /// An assertion whose condition was false.
    AssertionFailed,
    /// An instruction that needs more values than the stack holds.
    StackUnderflow,
    /// An operand that names no constant, global, builtin, slot or
    /// position in the code.
    BadOperand,
    /// A call of what is neither function nor builtin.
    NotCallable,
    /// The step limit was reached.
    StepLimit,
}

/// Whether the machine runs, and how it stopped if it does not.
#[derive(Debug, Clone, Copy, PartialEq, Eq, Structural)]
pub enum Status {
    Running,
    /// An `Exit` instruction ended the run with this code.
    Exited(i32),
    Failed(VmError),
}

/// What a call saves: where to go on after it, and the caller's tuple and
/// code unit.
#[derive(Debug, Clone, Copy, PartialEq, Eq, Structural)]
pub struct Register {
    pub return_ip: usize,
    pub free_start: usize,
    pub num_parameters: usize,
    pub base: usize,
}

/// The code the machine runs.
pub struct Code {
    pub instructions: Seq<Instruction>,
    pub constants: Seq<Value>,
    /// Where the main program starts; function bodies stand before it.
    pub main_start: usize,
}

/// The state of the machine.
pub struct Machine {
    pub stack: Seq<Value>,
    pub globals: Seq<Value>,
    /// For each global, where the function stored in it starts and how
    /// many parameters it has.
    pub closures: Seq<(usize, usize)>,
    pub registers: Seq<Register>,
    /// Where on the stack the tuple of the running call starts.
    pub free_start: usize,
    /// Where the running code unit starts.
    pub base: usize,
    pub ip: usize,
    pub output: Seq<char>,
    pub status: Status,
}

/// The heap of the machine: it has none.
pub open spec fn no_heap() -> HeapModel {
    HeapModel { hashes: Seq::empty(), instances: Seq::empty() }
}

impl Machine {
    /// The machine at the start: empty stack, every global nil, at the
    /// start of the main program.
    pub open spec fn start(main_start: usize) -> Machine {
        Machine {
            stack: Seq::empty(),
            globals: Seq::new(GLOBALS_SIZE as nat, |i: int| Value::Nil),
            closures: Seq::new(GLOBALS_SIZE as nat, |i: int| (0usize, 0usize)),
            registers: Seq::empty(),
            free_start: 0,
            base: main_start,
            ip: main_start,
            output: Seq::empty(),
            status: Status::Running,
        }
    }

    pub open spec fn fail(self, error: VmError) -> Machine {
        Machine { status: Status::Failed(error), ..self }
    }

    /// The machine at the next instruction.
    pub open spec fn next(self) -> Machine {
        if self.ip < usize::MAX {
            Machine { ip: (self.ip + 1) as usize, ..self }
        } else {
            self.fail(VmError::BadOperand)
        }
    }

    /// The machine at the position `p` of the running code unit.
    pub open spec fn jump(self, p: usize) -> Machine {
        if self.base + p <= usize::MAX {
            Machine { ip: (self.base + p) as usize, ..self }
        } else {
            self.fail(VmError::BadOperand)
        }
    }

    pub open spec fn with_stack(self, stack: Seq<Value>) -> Machine {
        Machine { stack, ..self }
    }

    /// The machine with `v` on top of the stack.
    pub open spec fn push(self, v: Value) -> Machine {
        Machine { stack: self.stack.push(v), ..self }
    }

    /// The value on top of the stack.
    pub open spec fn top(self) -> Value {
        self.stack.last()
    }

    /// The machine without the value on top of the stack.
    pub open spec fn drop(self) -> Machine {
        Machine { stack: self.stack.drop_last(), ..self }
    }

    /// Whether the machine has stopped, or has run to the end of its code.
    pub open spec fn done(self, code: Code) -> bool {
        self.status != Status::Running || self.ip >= code.instructions.len()
    }

    /// What the run gives: the value on top of the stack, or nil if the
    /// stack is empty.
    pub open spec fn result(self) -> Value {
        if self.stack.len() > 0 {
            self.stack.last()
        } else {
            Value::Nil
        }
    }
}

/// What an arithmetic or comparison instruction gives for two values:
/// the rounded result or the truth of the comparison for two numbers, nil
/// for anything else.
pub open spec fn numeric_result(i: Instruction, l: Value, r: Value, arithmetic: Arithmetic) -> Value {
    match (l, r) {
        (Value::Number(a), Value::Number(b)) => match i {
            Instruction::Add => Value::Number((arithmetic.binary)(NumberOp::Add, a, b)),
            Instruction::Minus => Value::Number((arithmetic.binary)(NumberOp::Subtract, a, b)),
            Instruction::Multiply => Value::Number((arithmetic.binary)(NumberOp::Multiply, a, b)),
            Instruction::Divide => Value::Number((arithmetic.binary)(NumberOp::Divide, a, b)),
            Instruction::Mod => Value::Number((arithmetic.binary)(NumberOp::Remainder, a, b)),
            Instruction::GreaterThan => Value::Boolean(b.less_than(a)),
            Instruction::LessThan => Value::Boolean(a.less_than(b)),
            Instruction::EqualEqual => Value::Boolean(a.same_as(b)),
            _ => Value::Nil,
        },
        _ => Value::Nil,
    }
}

/// `acc` and the printed forms of `vs[i..]`, one after the other.
pub open spec fn written_into(
    acc: Seq<char>,
    vs: Seq<Value>,
    i: int,
    format: spec_fn(crate::number::Number) -> Seq<char>,
) -> Seq<char>
    decreases vs.len() - i,
{
    if i < 0 || i >= vs.len() {
        acc
    } else {
        written_into(value_into(acc, vs[i], no_heap(), format, 0), vs, i + 1, format)
    }
}

/// The machine after a call of `callee` on the `n` values on top of the
/// stack, which stand above it.
///
/// A builtin is run at once, and its result takes the place of callee and
/// arguments. A function starts to run: the callee is taken from under
/// its arguments, which become the tuple of the call.
pub open spec fn step_call(m: Machine, n: usize, arithmetic: Arithmetic) -> Machine {
    if m.stack.len() < n + 1 {
        m.fail(VmError::StackUnderflow)
    } else {
        let at = m.stack.len() - n - 1;
        let args = m.stack.subrange(at + 1, m.stack.len() as int);
        match m.stack[at] {
            Value::Builtin(_, _, index) => Machine {
                stack: m.stack.subrange(0, at).push(
                    builtin_result(index, args, no_heap(), arithmetic.format),
                ),
                output: builtin_output(m.output, index, args, no_heap(), arithmetic.format),
                ..m
            }.next(),
            Value::CompiledFunction { start, num_parameters, .. } => enter_function(
                m.with_stack(m.stack.subrange(0, at) + args),
                start,
                n,
            ),
            Value::Closure { func, .. } => enter_function(
                m.with_stack(m.stack.subrange(0, at) + args),
                func,
                n,
            ),
            _ => m.fail(VmError::NotCallable),
        }
    }
}

/// The machine at the start of the function at `start`, with the `k`
/// values on top of the stack as the tuple of the call.
pub open spec fn enter_function(m: Machine, start: usize, k: usize) -> Machine {
    if m.stack.len() < k {
        m.fail(VmError::StackUnderflow)
    } else {
        Machine {
            registers: m.registers.push(
                Register {
                    return_ip: m.ip,
                    free_start: m.free_start,
                    num_parameters: k,
                    base: m.base,
                },
            ),
            free_start: (m.stack.len() - k) as usize,
            base: start,
            ip: start,
            ..m
        }
    }
}

/// The machine after a return: the tuple of the call and what the call
/// put above it are gone, the value that was on top is on top, and the
/// caller goes on after the call.
pub open spec fn step_return(m: Machine) -> Machine {
    if m.registers.len() == 0 {
        m.fail(VmError::BadOperand)
    } else if m.stack.len() == 0 {
        m.fail(VmError::StackUnderflow)
    } else if m.free_start > m.stack.len() - 1 {
        m.fail(VmError::BadOperand)
    } else {
        let r = m.registers.last();
        Machine {
            stack: m.stack.subrange(0, m.free_start as int).push(m.stack.last()),
            registers: m.registers.drop_last(),
            free_start: r.free_start,
            base: r.base,
            ip: r.return_ip,
            ..m
        }.next()
    }
}

/// The machine after the instruction `i`.
pub open spec fn step_instruction(code: Code, m: Machine, i: Instruction, arithmetic: Arithmetic)
    -> Machine {
    match i {
        Instruction::Add
        | Instruction::Minus
        | Instruction::Multiply
        | Instruction::Divide
        | Instruction::Mod
        | Instruction::LessThan
        | Instruction::GreaterThan
        | Instruction::EqualEqual => if m.stack.len() < 2 {
            m.fail(VmError::StackUnderflow)
        } else {
            m.drop().drop().push(
                numeric_result(i, m.stack[m.stack.len() - 2], m.stack.last(), arithmetic),
            ).next()
        },
        Instruction::Nagetive => if m.stack.len() < 1 {
            m.fail(VmError::StackUnderflow)
        } else {
            m.drop().push(
                match m.top() {
                    Value::Number(n) => Value::Number(n.negated()),
                    _ => Value::Number(crate::number::Number { bits: 0 }),
                },
            ).next()
        },
        Instruction::Abs => if m.stack.len() < 1 {
            m.fail(VmError::StackUnderflow)
        } else {
            m.drop().push(
                match m.top() {
                    Value::Number(n) => Value::Number(
                        crate::number::Number { bits: n.magnitude() },
                    ),
                    _ => Value::Number(crate::number::Number { bits: 0 }),
                },
            ).next()
        },
        Instruction::Assert(p) => if m.stack.len() < 1 {
            m.fail(VmError::StackUnderflow)
        } else if m.top() == Value::Boolean(false) {
            m.drop().fail(VmError::AssertionFailed)
        } else {
            m.drop().jump(p)
        },
        Instruction::Exit(c) => Machine { status: Status::Exited(c), ..m },
        Instruction::JumpIfFalse(p) => if m.stack.len() < 1 {
            m.fail(VmError::StackUnderflow)
        } else if m.top() == Value::Boolean(false) {
            m.drop().jump(p)
        } else {
            m.drop().next()
        },
        Instruction::Jump(p) => m.jump(p),
        Instruction::LoadConstant(c) => if c < code.constants.len() {
            m.push(code.constants[c as int]).next()
        } else {
            m.fail(VmError::BadOperand)
        },
        Instruction::Pop => if m.stack.len() < 1 {
            m.fail(VmError::StackUnderflow)
        } else {
            m.drop().next()
        },
        Instruction::Print(n) => if m.stack.len() < n {
            m.fail(VmError::StackUnderflow)
        } else {
            Machine {
                stack: m.stack.subrange(0, m.stack.len() - n),
                output: written_into(
                    m.output,
                    m.stack.subrange(m.stack.len() - n, m.stack.len() as int),
                    0,
                    arithmetic.format,
                ),
                ..m
            }.next()
        },
        Instruction::DefineGlobal(name) => if m.stack.len() < 1 {
            m.fail(VmError::StackUnderflow)
        } else {
            Machine {
                output: value_into(
                    m.output + name + " = "@,
                    m.top(),
                    no_heap(),
                    arithmetic.format,
                    0,
                ) + "\n"@,
                ..m.drop()
            }.next()
        },
        Instruction::GetGlobal(g) => if g < m.globals.len() {
            m.push(m.globals[g as int]).next()
        } else {
            m.fail(VmError::BadOperand)
        },
        Instruction::SetGlobal(g) => if m.stack.len() < 1 {
            m.fail(VmError::StackUnderflow)
        } else if g >= m.globals.len() || g >= m.closures.len() {
            m.fail(VmError::BadOperand)
        } else {
            match m.top() {
                Value::CompiledFunction { start, num_parameters, .. } => Machine {
                    closures: m.closures.update(g as int, (start, num_parameters)),
                    ..m.drop()
                }.next(),
                v => Machine { globals: m.globals.update(g as int, v), ..m.drop() }.next(),
            }
        },
        Instruction::GetBuiltin(b) => if b < BUILTIN_COUNT {
            m.push(builtin_value(b)).next()
        } else {
            m.fail(VmError::BadOperand)
        },
        Instruction::Call(n) => step_call(m, n, arithmetic),
        Instruction::Closure(c, k) => if c >= m.closures.len() {
            m.fail(VmError::BadOperand)
        } else {
            enter_function(m, m.closures[c as int].0, k)
        },
        Instruction::GetFree(f) | Instruction::GetLocal(f) => if m.free_start + f
            < m.stack.len() {
            m.push(m.stack[m.free_start + f]).next()
        } else {
            m.fail(VmError::BadOperand)
        },
        Instruction::SetLocal(l) => if m.stack.len() < 1 {
            m.fail(VmError::StackUnderflow)
        } else if m.free_start + l < m.stack.len() - 1 {
            m.with_stack(m.stack.drop_last().update(m.free_start + l, m.top())).next()
        } else if m.free_start + l == m.stack.len() - 1 {
            m.next()
        } else {
            m.fail(VmError::BadOperand)
        },
        Instruction::Return | Instruction::ReturnValue => step_return(m),
        Instruction::CurrentClosure => m.push(
            Value::Closure { func: m.base, free_vars: Seq::empty() },
        ).next(),
    }
}

/// One step of the machine: the instruction at `ip`. A machine that is
/// done stays as it is.
pub open spec fn step(code: Code, m: Machine, arithmetic: Arithmetic) -> Machine {
    if m.done(code) {
        m
    } else {
        step_instruction(code, m, code.instructions[m.ip as int], arithmetic)
    }
}

/// The machine after up to `n` steps.
pub open spec fn run_for(code: Code, m: Machine, n: nat, arithmetic: Arithmetic) -> Machine
    decreases n,
{
    if n == 0 || m.done(code) {
        m
    } else {
        run_for(code, step(code, m, arithmetic), (n - 1) as nat, arithmetic)
    }
}

} // verus!
