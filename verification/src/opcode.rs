//! The instructions of the virtual machine.

use vstd::prelude::*;

verus! {

/// One instruction. Positions in jumps count from the start of the code
/// unit, main program or function body, that the instruction stands in.
#[derive(Debug, Clone, PartialEq)]
pub enum Opcode {
    LoadConstant(usize),
    Pop,
    Add,
    Minus,
    Multiply,
    Divide,
    Mod,
    LessThan,
    GreaterThan,
    EqualEqual,
    Nagetive,
    Abs,
    Print(usize),
    DefineGlobal(String),
    GetGlobal(usize),
    SetGlobal(usize),
    GetLocal(usize),
    SetLocal(usize),
    GetFree(usize),
    GetBuiltin(usize),
    Call(usize),
    Closure(usize, usize),
    Jump(usize),
    JumpIfFalse(usize),
    ReturnValue,
    Return,
    Assert(usize),
    Exit(i32),
    CurrentClosure,
}

/// The mathematical value of an [`Opcode`].
pub enum Instruction {
    LoadConstant(usize),
    Pop,
    Add,
    Minus,
    Multiply,
    Divide,
    Mod,
    LessThan,
    GreaterThan,
    EqualEqual,
    Nagetive,
    Abs,
    Print(usize),
    DefineGlobal(Seq<char>),
    GetGlobal(usize),
    SetGlobal(usize),
    GetLocal(usize),
    SetLocal(usize),
    GetFree(usize),
    GetBuiltin(usize),
    Call(usize),
    Closure(usize, usize),
    Jump(usize),
    JumpIfFalse(usize),
    ReturnValue,
    Return,
    Assert(usize),
    Exit(i32),
    CurrentClosure,
}

impl View for Opcode {
    type V = Instruction;

    open spec fn view(&self) -> Instruction {
        match self {
            Opcode::LoadConstant(i) => Instruction::LoadConstant(*i),
            Opcode::Pop => Instruction::Pop,
            Opcode::Add => Instruction::Add,
            Opcode::Minus => Instruction::Minus,
            Opcode::Multiply => Instruction::Multiply,
            Opcode::Divide => Instruction::Divide,
            Opcode::Mod => Instruction::Mod,
            Opcode::LessThan => Instruction::LessThan,
            Opcode::GreaterThan => Instruction::GreaterThan,
            Opcode::EqualEqual => Instruction::EqualEqual,
            Opcode::Nagetive => Instruction::Nagetive,
            Opcode::Abs => Instruction::Abs,
            Opcode::Print(n) => Instruction::Print(*n),
            Opcode::DefineGlobal(s) => Instruction::DefineGlobal(s@),
            Opcode::GetGlobal(i) => Instruction::GetGlobal(*i),
            Opcode::SetGlobal(i) => Instruction::SetGlobal(*i),
            Opcode::GetLocal(i) => Instruction::GetLocal(*i),
            Opcode::SetLocal(i) => Instruction::SetLocal(*i),
            Opcode::GetFree(i) => Instruction::GetFree(*i),
            Opcode::GetBuiltin(i) => Instruction::GetBuiltin(*i),
            Opcode::Call(n) => Instruction::Call(*n),
            Opcode::Closure(i, k) => Instruction::Closure(*i, *k),
            Opcode::Jump(p) => Instruction::Jump(*p),
            Opcode::JumpIfFalse(p) => Instruction::JumpIfFalse(*p),
            Opcode::ReturnValue => Instruction::ReturnValue,
            Opcode::Return => Instruction::Return,
            Opcode::Assert(p) => Instruction::Assert(*p),
            Opcode::Exit(c) => Instruction::Exit(*c),
            Opcode::CurrentClosure => Instruction::CurrentClosure,
        }
    }
}

impl Instruction {
    /// The position that the instruction may continue at, if it is a jump:
    /// `Jump`, `JumpIfFalse` or `Assert`.
    pub open spec fn target(self) -> Option<usize> {
        match self {
            Instruction::Jump(p) => Some(p),
            Instruction::JumpIfFalse(p) => Some(p),
            Instruction::Assert(p) => Some(p),
            _ => None,
        }
    }
}

/// The values of the instructions of `v`, in order.
pub open spec fn code(v: Seq<Opcode>) -> Seq<Instruction> {
    v.map_values(|o: Opcode| o@)
}

impl Opcode {
    /// A copy of this instruction.
    pub fn duplicate(&self) -> (o: Opcode)
        ensures
            o@ == self@,
    {
        match self {
            Opcode::LoadConstant(i) => Opcode::LoadConstant(*i),
            Opcode::Pop => Opcode::Pop,
            Opcode::Add => Opcode::Add,
            Opcode::Minus => Opcode::Minus,
            Opcode::Multiply => Opcode::Multiply,
            Opcode::Divide => Opcode::Divide,
            Opcode::Mod => Opcode::Mod,
            Opcode::LessThan => Opcode::LessThan,
            Opcode::GreaterThan => Opcode::GreaterThan,
            Opcode::EqualEqual => Opcode::EqualEqual,
            Opcode::Nagetive => Opcode::Nagetive,
            Opcode::Abs => Opcode::Abs,
            Opcode::Print(n) => Opcode::Print(*n),
            Opcode::DefineGlobal(s) => Opcode::DefineGlobal(s.clone()),
            Opcode::GetGlobal(i) => Opcode::GetGlobal(*i),
            Opcode::SetGlobal(i) => Opcode::SetGlobal(*i),
            Opcode::GetLocal(i) => Opcode::GetLocal(*i),
            Opcode::SetLocal(i) => Opcode::SetLocal(*i),
            Opcode::GetFree(i) => Opcode::GetFree(*i),
            Opcode::GetBuiltin(i) => Opcode::GetBuiltin(*i),
            Opcode::Call(n) => Opcode::Call(*n),
            Opcode::Closure(i, k) => Opcode::Closure(*i, *k),
            Opcode::Jump(p) => Opcode::Jump(*p),
            Opcode::JumpIfFalse(p) => Opcode::JumpIfFalse(*p),
            Opcode::ReturnValue => Opcode::ReturnValue,
            Opcode::Return => Opcode::Return,
            Opcode::Assert(p) => Opcode::Assert(*p),
            Opcode::Exit(c) => Opcode::Exit(*c),
            Opcode::CurrentClosure => Opcode::CurrentClosure,
        }
    }
}

} // verus!
