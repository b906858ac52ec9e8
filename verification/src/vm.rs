//! The virtual machine. What it does is stated by the machine's
//! semantics.

use crate::builtins::{call_builtin, Builtins};
use crate::display::write_value;
use crate::heap::Heap;
use crate::machine::{
    enter_function, no_heap, numeric_result, run_for, step, step_call, step_instruction,
    step_return, written_into, Code, Machine, Register, Status, VmError, GLOBALS_SIZE,
};
use crate::number::{compute, lawful, model_of, Number, NumberOp, NumberReply, NumberRequest};
use crate::objects::{
    lemma_values_index, lemma_values_len, lemma_values_push, lemma_values_subrange,
    lemma_values_update, values, Object, Value,
};
use crate::opcode::{code, Instruction, Opcode};
use vstd::prelude::*;

verus! {

/// The virtual machine. `K` is the number kernel.
pub struct VM<'p, K: Fn(NumberRequest) -> NumberReply> {
    constants: Vec<Object<'p>>,
    stack: Vec<Object<'p>>,
    globals: Vec<Object<'p>>,
    closures: Vec<(usize, usize)>,
    builtins: Builtins,
    heap: Heap<'p>,
    main_start: usize,
    instructions: Vec<Opcode>,
    registers: Vec<Register>,
    free_start: usize,
    base: usize,
    ip: usize,
    written: String,
    status: Status,
    numbers: K,
}

fn numeric<'p, K: Fn(NumberRequest) -> NumberReply>(
    op: &Opcode,
    l: &Object<'p>,
    r: &Object<'p>,
    numbers: &K,
) -> (v: Object<'p>)
    requires
        lawful(numbers),
    ensures
        v.view() == numeric_result(op@, l.view(), r.view(), model_of(numbers)),
{
    match (l, r) {
        (Object::Number(a), Object::Number(b)) => match op {
            Opcode::Add => Object::Number(compute(numbers, NumberOp::Add, *a, *b)),
            Opcode::Minus => Object::Number(compute(numbers, NumberOp::Subtract, *a, *b)),
            Opcode::Multiply => Object::Number(compute(numbers, NumberOp::Multiply, *a, *b)),
            Opcode::Divide => Object::Number(compute(numbers, NumberOp::Divide, *a, *b)),
            Opcode::Mod => Object::Number(compute(numbers, NumberOp::Remainder, *a, *b)),
            Opcode::GreaterThan => Object::Boolean(b.lt(a)),
            Opcode::LessThan => Object::Boolean(a.lt(b)),
            Opcode::EqualEqual => Object::Boolean(a.eq_number(b)),
            _ => Object::Nil,
        },
        _ => Object::Nil,
    }
}

fn is_false(v: &Object) -> (b: bool)
    ensures
        b == (v.view() == Value::Boolean(false)),
{
    match v {
        Object::Boolean(b) => !*b,
        _ => false,
    }
}

fn nil_globals<'p>() -> (g: Vec<Object<'p>>)
    ensures
        values(g@) == Seq::new(GLOBALS_SIZE as nat, |i: int| Value::Nil),
{
    let mut g: Vec<Object<'p>> = Vec::new();
    let mut i: usize = 0;
    while i < GLOBALS_SIZE
        invariant
            i <= GLOBALS_SIZE,
            g@.len() == i,
            forall|j: int| 0 <= j < i ==> (#[trigger] g@[j]).view() == Value::Nil,
        decreases GLOBALS_SIZE - i,
    {
        g.push(Object::Nil);
        i += 1;
    }
    proof {
        crate::objects::lemma_values_are(g@, Seq::new(GLOBALS_SIZE as nat, |i: int| Value::Nil));
    }
    g
}

fn no_closures() -> (c: Vec<(usize, usize)>)
    ensures
        c@ == Seq::new(GLOBALS_SIZE as nat, |i: int| (0usize, 0usize)),
{
    let mut c: Vec<(usize, usize)> = Vec::new();
    let mut i: usize = 0;
    while i < GLOBALS_SIZE
        invariant
            i <= GLOBALS_SIZE,
            c@.len() == i,
            forall|j: int| 0 <= j < i ==> c@[j] == (0usize, 0usize),
        decreases GLOBALS_SIZE - i,
    {
        c.push((0, 0));
        i += 1;
    }
    assert(c@ =~= Seq::new(GLOBALS_SIZE as nat, |i: int| (0usize, 0usize)));
    c
}

impl<'p, K: Fn(NumberRequest) -> NumberReply> VM<'p, K> {
    /// The state of the machine.
    pub closed spec fn machine(&self) -> Machine {
        Machine {
            stack: values(self.stack@),
            globals: values(self.globals@),
            closures: self.closures@,
            registers: self.registers@,
            free_start: self.free_start,
            base: self.base,
            ip: self.ip,
            output: self.written@,
            status: self.status,
        }
    }

    /// The code the machine runs.
    pub closed spec fn code(&self) -> Code {
        Code {
            instructions: code(self.instructions@),
            constants: values(self.constants@),
            main_start: self.main_start,
        }
    }

    /// The arithmetic of the machine's number kernel.
    pub closed spec fn arithmetic(&self) -> crate::number::Arithmetic {
        model_of(&self.numbers)
    }

    /// The machine's invariant.
    pub closed spec fn wf(&self) -> bool {
        &&& lawful(&self.numbers)
        &&& self.builtins.wf()
        &&& self.heap.view() == no_heap()
    }

    /// Whether all but stack, output, status and position is as in
    /// `before`.
    spec fn rest_same(&self, before: &Self) -> bool {
        &&& self.globals == before.globals
        &&& self.closures == before.closures
        &&& self.registers == before.registers
        &&& self.constants == before.constants
        &&& self.instructions == before.instructions
        &&& self.free_start == before.free_start
        &&& self.base == before.base
    }

    /// Whether this machine is `before` after some steps: over the same
    /// code, with the same arithmetic.
    pub open spec fn after(&self, before: &Self) -> bool {
        &&& self.wf()
        &&& self.code() == before.code()
        &&& self.arithmetic() == before.arithmetic()
    }

    /// A machine for the instructions `ins.1`, whose main program starts
    /// at `ins.0`, without constants. `numbers` must be a number kernel.
    pub fn new(ins: (usize, Vec<Opcode>), numbers: K) -> (vm: VM<'p, K>)
        requires
            lawful(&numbers),
        ensures
            vm.wf(),
            vm.arithmetic() == model_of(&numbers),
            vm.code() == (Code {
                instructions: code(ins.1@),
                constants: Seq::empty(),
                main_start: ins.0,
            }),
            vm.machine() == Machine::start(ins.0),
    {
        let constants: Vec<Object<'p>> = Vec::new();
        let stack: Vec<Object<'p>> = Vec::new();
        assert(values(constants@) =~= Seq::empty());
        assert(values(stack@) =~= Seq::empty());
        VM {
            constants,
            stack,
            globals: nil_globals(),
            closures: no_closures(),
            builtins: Builtins::new(),
            heap: Heap::new(),
            main_start: ins.0,
            instructions: ins.1,
            registers: Vec::new(),
            free_start: 0,
            base: ins.0,
            ip: ins.0,
            written: String::new(),
            status: Status::Running,
            numbers,
        }
    }

    /// Gives the machine its constants.
    pub fn define_constants(&mut self, constants: Vec<Object<'p>>)
        requires
            old(self).wf(),
        ensures
            final(self).wf(),
            final(self).arithmetic() == old(self).arithmetic(),
            final(self).machine() == old(self).machine(),
            final(self).code() == (Code { constants: values(constants@), ..old(self).code() }),
    {
        self.constants = constants;
    }

    /// What has been written so far.
    pub fn written(&self) -> (s: &String)
        ensures
            s@ == self.machine().output,
    {
        &self.written
    }

    /// Whether the machine runs, and how it stopped if it does not.
    pub fn status(&self) -> (s: Status)
        ensures
            s == self.machine().status,
    {
        self.status
    }

    /// How many values are on the stack.
    pub fn sp(&self) -> (n: usize)
        ensures
            n == self.machine().stack.len(),
    {
        proof {
            lemma_values_len(self.stack@);
        }
        self.stack.len()
    }

    fn push(&mut self, obj: Object<'p>)
        requires
            old(self).wf(),
        ensures
            final(self).after(old(self)),
            final(self).machine() == old(self).machine().push(obj.view()),
            final(self).rest_same(old(self)),
            final(self).stack@ == old(self).stack@.push(obj),
    {
        proof {
            lemma_values_push(self.stack@, obj);
        }
        self.stack.push(obj);
    }

    fn pop(&mut self) -> (obj: Object<'p>)
        requires
            old(self).wf(),
            old(self).machine().stack.len() > 0,
        ensures
            final(self).after(old(self)),
            obj.view() == old(self).machine().top(),
            final(self).machine() == old(self).machine().drop(),
            final(self).rest_same(old(self)),
            final(self).stack@ == old(self).stack@.drop_last(),
            obj == old(self).stack@.last(),
    {
        proof {
            lemma_values_len(self.stack@);
            lemma_values_index(self.stack@, self.stack@.len() - 1);
            lemma_values_subrange(self.stack@, 0, self.stack@.len() - 1);
            assert(self.stack@.drop_last() =~= self.stack@.subrange(0, self.stack@.len() - 1));
        }
        let obj = self.stack.pop().unwrap();
        proof {
            assert(values(old(self).stack@).drop_last() =~= values(old(self).stack@).subrange(
                0,
                old(self).stack@.len() - 1,
            ));
        }
        obj
    }

    /// Takes the `n` values on top of the stack.
    fn take(&mut self, n: usize) -> (top: Vec<Object<'p>>)
        requires
            old(self).wf(),
            n <= old(self).machine().stack.len(),
        ensures
            final(self).after(old(self)),
            values(top@) == old(self).machine().stack.subrange(
                old(self).machine().stack.len() - n,
                old(self).machine().stack.len() as int,
            ),
            final(self).machine() == old(self).machine().with_stack(
                old(self).machine().stack.subrange(0, old(self).machine().stack.len() - n),
            ),
            final(self).rest_same(old(self)),
            final(self).stack@ == old(self).stack@.subrange(0, old(self).stack@.len() - n),
            top@ == old(self).stack@.subrange(
                old(self).stack@.len() - n,
                old(self).stack@.len() as int,
            ),
    {
        proof {
            lemma_values_len(self.stack@);
            lemma_values_subrange(self.stack@, 0, self.stack@.len() - n);
            lemma_values_subrange(self.stack@, self.stack@.len() - n, self.stack@.len() as int);
        }
        let at = self.stack.len() - n;
        self.stack.split_off(at)
    }

    fn last(&self) -> (obj: &Object<'p>)
        requires
            self.machine().stack.len() > 0,
        ensures
            obj.view() == self.machine().top(),
    {
        proof {
            lemma_values_len(self.stack@);
            lemma_values_index(self.stack@, self.stack@.len() - 1);
        }
        &self.stack[self.stack.len() - 1]
    }

    fn fail(&mut self, error: VmError)
        requires
            old(self).wf(),
        ensures
            final(self).after(old(self)),
            final(self).machine() == old(self).machine().fail(error),
    {
        self.status = Status::Failed(error);
    }

    fn next(&mut self)
        requires
            old(self).wf(),
        ensures
            final(self).after(old(self)),
            final(self).machine() == old(self).machine().next(),
    {
        if self.ip < usize::MAX {
            self.ip += 1;
        } else {
            self.status = Status::Failed(VmError::BadOperand);
        }
    }

    fn jump(&mut self, p: usize)
        requires
            old(self).wf(),
        ensures
            final(self).after(old(self)),
            final(self).machine() == old(self).machine().jump(p),
    {
        if p <= usize::MAX - self.base {
            self.ip = self.base + p;
        } else {
            self.status = Status::Failed(VmError::BadOperand);
        }
    }

    fn enter_function(&mut self, start: usize, k: usize)
        requires
            old(self).wf(),
        ensures
            final(self).after(old(self)),
            final(self).machine() == enter_function(old(self).machine(), start, k),
    {
        proof {
            lemma_values_len(self.stack@);
        }
        if self.stack.len() < k {
            self.status = Status::Failed(VmError::StackUnderflow);
            return ;
        }
        self.registers.push(
            Register {
                return_ip: self.ip,
                free_start: self.free_start,
                num_parameters: k,
                base: self.base,
            },
        );
        self.free_start = self.stack.len() - k;
        self.base = start;
        self.ip = start;
    }

    fn do_return(&mut self)
        requires
            old(self).wf(),
        ensures
            final(self).after(old(self)),
            final(self).machine() == step_return(old(self).machine()),
    {
        proof {
            lemma_values_len(self.stack@);
        }
        if self.registers.len() == 0 {
            self.fail(VmError::BadOperand);
            return ;
        }
        if self.stack.len() == 0 {
            self.fail(VmError::StackUnderflow);
            return ;
        }
        if self.free_start > self.stack.len() - 1 {
            self.fail(VmError::BadOperand);
            return ;
        }
        let value = self.pop();
        let ghost below = self.machine().stack;
        proof {
            lemma_values_len(self.stack@);
        }
        let n = self.stack.len() - self.free_start;
        let _ = self.take(n);
        self.push(value);
        let r = self.registers.pop().unwrap();
        self.free_start = r.free_start;
        self.base = r.base;
        self.ip = r.return_ip;
        proof {
            assert(below.subrange(0, old(self).free_start as int) =~= old(
                self,
            ).machine().stack.subrange(0, old(self).free_start as int));
        }
        self.next();
    }

    fn do_call(&mut self, n: usize)
        requires
            old(self).wf(),
        ensures
            final(self).after(old(self)),
            final(self).machine() == step_call(old(self).machine(), n, old(self).arithmetic()),
    {
        proof {
            lemma_values_len(self.stack@);
        }
        if n >= self.stack.len() {
            self.fail(VmError::StackUnderflow);
            return ;
        }
        let ghost before = self.machine();
        let args = self.take(n);
        let callee = self.pop();
        proof {
            assert(self.machine().stack =~= before.stack.subrange(
                0,
                before.stack.len() - n - 1,
            ));
        }
        match callee {
            Object::Builtin(_, _, index) => {
                let result = call_builtin(
                    index,
                    &args,
                    &self.heap,
                    &mut self.written,
                    &self.numbers,
                );
                self.push(result);
                self.next();
            },
            Object::CompiledFunction { start, .. } => {
                self.put_back(args);
                self.enter_function(start, n);
            },
            Object::Closure { func, .. } => {
                self.put_back(args);
                self.enter_function(func, n);
            },
            _ => {
                let ghost now = self.machine();
                self.stack.push(callee);
                let mut args = args;
                self.stack.append(&mut args);
                proof {
                    assert(self.stack@ =~= old(self).stack@);
                }
                self.fail(VmError::NotCallable);
            },
        }
    }

    /// Puts `args` on top of the stack.
    fn put_back(&mut self, args: Vec<Object<'p>>)
        requires
            old(self).wf(),
        ensures
            final(self).after(old(self)),
            final(self).machine() == old(self).machine().with_stack(
                old(self).machine().stack + values(args@),
            ),
    {
        let mut args = args;
        let ghost a = args@;
        self.stack.append(&mut args);
        proof {
            lemma_values_len(old(self).stack@);
            lemma_values_len(a);
            assert forall|j: int| 0 <= j < self.stack@.len() implies (values(old(self).stack@)
                + values(a))[j] == (#[trigger] self.stack@[j]).view() by {
                if j < old(self).stack@.len() {
                    lemma_values_index(old(self).stack@, j);
                } else {
                    lemma_values_index(a, j - old(self).stack@.len());
                }
            }
            crate::objects::lemma_values_are(self.stack@, values(old(self).stack@) + values(a));
        }
    }

    /// Writes the printed forms of `vs`, one after the other.
    fn write_all(&mut self, vs: &Vec<Object<'p>>)
        requires
            old(self).wf(),
        ensures
            final(self).after(old(self)),
            final(self).machine() == (Machine {
                output: written_into(
                    old(self).machine().output,
                    values(vs@),
                    0,
                    old(self).arithmetic().format,
                ),
                ..old(self).machine()
            }),
    {
        let mut i: usize = 0;
        proof {
            lemma_values_len(vs@);
        }
        while i < vs.len()
            invariant
                i <= vs.len(),
                self.after(old(self)),
                values(vs@).len() == vs@.len(),
                self.machine() == (Machine { output: self.machine().output, ..old(self).machine() }),
                written_into(
                    old(self).machine().output,
                    values(vs@),
                    0,
                    old(self).arithmetic().format,
                ) == written_into(
                    self.machine().output,
                    values(vs@),
                    i as int,
                    old(self).arithmetic().format,
                ),
            decreases vs.len() - i,
        {
            proof {
                lemma_values_index(vs@, i as int);
            }
            write_value(&mut self.written, &vs[i], &self.heap, &self.numbers, 0);
            i += 1;
        }
    }

    /// An arithmetic or comparison instruction.
    fn do_operator(&mut self, instruction: &Opcode)
        requires
            old(self).wf(),
            instruction@ is Add || instruction@ is Minus || instruction@ is Multiply
                || instruction@ is Divide || instruction@ is Mod || instruction@ is LessThan
                || instruction@ is GreaterThan || instruction@ is EqualEqual,
        ensures
            final(self).after(old(self)),
            final(self).machine() == step_instruction(
                old(self).code(),
                old(self).machine(),
                instruction@,
                old(self).arithmetic(),
            ),
    {
        proof {
            lemma_values_len(self.stack@);
        }
        if self.stack.len() < 2 {
            self.fail(VmError::StackUnderflow);
        } else {
            proof {
                lemma_values_index(self.stack@, self.stack@.len() - 2);
            }
            let right = self.pop();
            let left = self.pop();
            let v = numeric(instruction, &left, &right, &self.numbers);
            self.push(v);
            self.next();
        }
    }

    /// `DefineGlobal`: writes the name and the value on top of the stack.
    fn do_define(&mut self, name: String)
        requires
            old(self).wf(),
        ensures
            final(self).after(old(self)),
            final(self).machine() == step_instruction(
                old(self).code(),
                old(self).machine(),
                Instruction::DefineGlobal(name@),
                old(self).arithmetic(),
            ),
    {
        proof {
            lemma_values_len(self.stack@);
        }
        if self.stack.len() < 1 {
            self.fail(VmError::StackUnderflow);
        } else {
            let v = self.pop();
            self.written.append(name.as_str());
            self.written.append(" = ");
            write_value(&mut self.written, &v, &self.heap, &self.numbers, 0);
            self.written.append("\n");
            self.next();
        }
    }

    /// `SetGlobal`: stores the value on top of the stack, or records where
    /// the function on top of the stack starts.
    fn do_set_global(&mut self, g: usize)
        requires
            old(self).wf(),
        ensures
            final(self).after(old(self)),
            final(self).machine() == step_instruction(
                old(self).code(),
                old(self).machine(),
                Instruction::SetGlobal(g),
                old(self).arithmetic(),
            ),
    {
        proof {
            lemma_values_len(self.stack@);
            lemma_values_len(self.globals@);
        }
        if self.stack.len() < 1 {
            self.fail(VmError::StackUnderflow);
        } else if g >= self.globals.len() || g >= self.closures.len() {
            self.fail(VmError::BadOperand);
        } else {
            let v = self.pop();
            match v {
                Object::CompiledFunction { start, num_parameters, .. } => {
                    self.closures[g] = (start, num_parameters);
                },
                _ => {
                    proof {
                        lemma_values_update(self.globals@, g as int, v);
                    }
                    self.globals[g] = v;
                },
            }
            self.next();
        }
    }

    /// `SetLocal`: stores the value on top of the stack in a slot of the
    /// running call.
    fn do_set_local(&mut self, l: usize)
        requires
            old(self).wf(),
        ensures
            final(self).after(old(self)),
            final(self).machine() == step_instruction(
                old(self).code(),
                old(self).machine(),
                Instruction::SetLocal(l),
                old(self).arithmetic(),
            ),
    {
        proof {
            lemma_values_len(self.stack@);
        }
        if self.stack.len() < 1 {
            self.fail(VmError::StackUnderflow);
        } else {
            let below = self.stack.len() - 1;
            if l < below && self.free_start < below - l {
                let v = self.pop();
                proof {
                    lemma_values_update(self.stack@, self.free_start + l, v);
                }
                let slot = self.free_start + l;
                self.stack[slot] = v;
                self.next();
            } else if l <= below && self.free_start == below - l {
                self.next();
            } else {
                self.fail(VmError::BadOperand);
            }
        }
    }

    /// One step of the machine.
    pub fn execute(&mut self)
        requires
            old(self).wf(),
        ensures
            final(self).after(old(self)),
            final(self).machine() == step(
                old(self).code(),
                old(self).machine(),
                old(self).arithmetic(),
            ),
    {
        if !matches!(self.status, Status::Running) || self.ip >= self.instructions.len() {
            return ;
        }
        let instruction = self.instructions[self.ip].duplicate();
        proof {
            lemma_values_len(self.stack@);
            lemma_values_len(self.globals@);
            lemma_values_len(self.constants@);
        }
        match instruction {
            Opcode::Add
            | Opcode::Minus
            | Opcode::Multiply
            | Opcode::Divide
            | Opcode::Mod
            | Opcode::LessThan
            | Opcode::GreaterThan
            | Opcode::EqualEqual => {
                self.do_operator(&instruction);
            },
            Opcode::Nagetive => {
                if self.stack.len() < 1 {
                    self.fail(VmError::StackUnderflow);
                } else {
                    let v = match self.pop() {
                        Object::Number(n) => Object::Number(n.negate()),
                        _ => Object::Number(Number { bits: 0 }),
                    };
                    self.push(v);
                    self.next();
                }
            },
            Opcode::Abs => {
                if self.stack.len() < 1 {
                    self.fail(VmError::StackUnderflow);
                } else {
                    let v = match self.pop() {
                        Object::Number(n) => Object::Number(
                            Number { bits: n.bits & 0x7fff_ffff_ffff_ffff },
                        ),
                        _ => Object::Number(Number { bits: 0 }),
                    };
                    self.push(v);
                    self.next();
                }
            },
            Opcode::Assert(p) => {
                if self.stack.len() < 1 {
                    self.fail(VmError::StackUnderflow);
                } else {
                    let v = self.pop();
                    if is_false(&v) {
                        self.fail(VmError::AssertionFailed);
                    } else {
                        self.jump(p);
                    }
                }
            },
            Opcode::Exit(c) => {
                self.status = Status::Exited(c);
            },
            Opcode::JumpIfFalse(p) => {
                if self.stack.len() < 1 {
                    self.fail(VmError::StackUnderflow);
                } else {
                    let v = self.pop();
                    if is_false(&v) {
                        self.jump(p);
                    } else {
                        self.next();
                    }
                }
            },
            Opcode::Jump(p) => {
                self.jump(p);
            },
            Opcode::LoadConstant(c) => {
                if c < self.constants.len() {
                    proof {
                        lemma_values_index(self.constants@, c as int);
                    }
                    let v = self.constants[c].duplicate();
                    self.push(v);
                    self.next();
                } else {
                    self.fail(VmError::BadOperand);
                }
            },
            Opcode::Pop => {
                if self.stack.len() < 1 {
                    self.fail(VmError::StackUnderflow);
                } else {
                    let _ = self.pop();
                    self.next();
                }
            },
            Opcode::Print(n) => {
                if self.stack.len() < n {
                    self.fail(VmError::StackUnderflow);
                } else {
                    let top = self.take(n);
                    self.write_all(&top);
                    self.next();
                }
            },
            Opcode::DefineGlobal(name) => {
                self.do_define(name);
            },
            Opcode::GetGlobal(g) => {
                if g < self.globals.len() {
                    proof {
                        lemma_values_index(self.globals@, g as int);
                    }
                    let v = self.globals[g].duplicate();
                    self.push(v);
                    self.next();
                } else {
                    self.fail(VmError::BadOperand);
                }
            },
            Opcode::SetGlobal(g) => {
                self.do_set_global(g);
            },
            Opcode::GetBuiltin(b) => {
                match self.builtins.get_by_index(b) {
                    Some(v) => {
                        self.push(v);
                        self.next();
                    },
                    None => {
                        self.fail(VmError::BadOperand);
                    },
                }
            },
            Opcode::Call(n) => {
                self.do_call(n);
            },
            Opcode::Closure(c, k) => {
                if c >= self.closures.len() {
                    self.fail(VmError::BadOperand);
                } else {
                    let start = self.closures[c].0;
                    self.enter_function(start, k);
                }
            },
            Opcode::GetFree(f) | Opcode::GetLocal(f) => {
                if f < self.stack.len() && self.free_start < self.stack.len() - f {
                    proof {
                        lemma_values_index(self.stack@, self.free_start + f);
                    }
                    let v = self.stack[self.free_start + f].duplicate();
                    self.push(v);
                    self.next();
                } else {
                    self.fail(VmError::BadOperand);
                }
            },
            Opcode::SetLocal(l) => {
                self.do_set_local(l);
            },
            Opcode::Return | Opcode::ReturnValue => {
                self.do_return();
            },
            Opcode::CurrentClosure => {
                let free_vars: Vec<Object<'p>> = Vec::new();
                assert(values(free_vars@) =~= Seq::empty());
                let v = Object::Closure { func: self.base, free_vars };
                self.push(v);
                self.next();
            },
        }
    }

    /// Runs the machine for up to `limit` steps.
    pub fn run_steps(&mut self, limit: usize)
        requires
            old(self).wf(),
        ensures
            final(self).after(old(self)),
            final(self).machine() == run_for(
                old(self).code(),
                old(self).machine(),
                limit as nat,
                old(self).arithmetic(),
            ),
    {
        let mut left: usize = limit;
        while left > 0 && matches!(self.status, Status::Running) && self.ip
            < self.instructions.len()
            invariant
                self.after(old(self)),
                run_for(
                    old(self).code(),
                    old(self).machine(),
                    limit as nat,
                    old(self).arithmetic(),
                ) == run_for(
                    old(self).code(),
                    self.machine(),
                    left as nat,
                    old(self).arithmetic(),
                ),
            decreases left,
        {
            self.execute();
            left -= 1;
        }
    }

    /// Runs the machine to the end of its code, or until it stops, or
    /// for as many steps as the machine can count.
    ///
    /// Gives the value on top of the stack, or nil if the stack is empty;
    /// or why the machine stopped, if it did: the failure, or `StepLimit`
    /// if it still runs. An exit is no failure: its code is in `status`.
    pub fn run(&mut self) -> (r: Result<Object<'p>, VmError>)
        requires
            old(self).wf(),
        ensures
            final(self).after(old(self)),
            final(self).machine() == run_for(
                old(self).code(),
                old(self).machine(),
                usize::MAX as nat,
                old(self).arithmetic(),
            ),
            match r {
                Ok(o) => Ok(o.view()),
                Err(x) => Err(x),
            } == run_result(final(self).code(), final(self).machine()),
    {
        self.run_steps(usize::MAX);
        match self.status {
            Status::Failed(x) => Err(x),
            Status::Exited(_) => Ok(self.result()),
            Status::Running => {
                if self.ip < self.instructions.len() {
                    Err(VmError::StepLimit)
                } else {
                    Ok(self.result())
                }
            },
        }
    }

    fn result(&self) -> (o: Object<'p>)
        ensures
            o.view() == self.machine().result(),
    {
        proof {
            lemma_values_len(self.stack@);
        }
        if self.stack.len() > 0 {
            proof {
                lemma_values_index(self.stack@, self.stack@.len() - 1);
            }
            self.stack[self.stack.len() - 1].duplicate()
        } else {
            Object::Nil
        }
    }
}

/// What a run that ended in the state `m` gives.
pub open spec fn run_result(code: Code, m: Machine) -> Result<Value, VmError> {
    match m.status {
        Status::Failed(x) => Err(x),
        Status::Exited(_) => Ok(m.result()),
        Status::Running => if m.ip < code.instructions.len() {
            Err(VmError::StepLimit)
        } else {
            Ok(m.result())
        },
    }
}

} // verus!
