//! What the compiler emits: the lowering of statements and expressions to
//! instructions, as a function of the state of the compilation.

use crate::ast::{ExprView, LiteralView, StmtView};
use crate::builtins::builtin_index;
use crate::objects::Value;
use crate::opcode::Instruction;
use crate::symbol::{Scope, SymbolView, TableModel};
use crate::token::TokenKind;
use vstd::prelude::*;

verus! {

/// Why a program cannot be compiled.
#[derive(Debug, Clone, Copy, PartialEq, Eq, Structural)]
pub enum CompileError {
    /// A name that no scope binds.
    UnresolvedSymbol,
    /// A statement, expression or operator that the compiler has no code
    /// for.
    Unsupported,
    /// More definitions in one scope than the machine can count.
    TooManySymbols,
}

/// The state of a compilation.
pub struct Unit {
    /// The constant pool.
    pub constants: Seq<Value>,
    /// The instructions of the code unit being compiled: the main
    /// program, or the body of the innermost function.
    pub instructions: Seq<Instruction>,
    /// The instructions, so far, of the code units around it, outermost
    /// first.
    pub saved: Seq<Seq<Instruction>>,
    /// The bodies of the functions compiled so far, one after the other.
    pub functions: Seq<Instruction>,
    pub symbols: TableModel,
}

/// The state after a piece of lowering, and whether it went through.
pub struct Lowered {
    pub unit: Unit,
    pub result: Result<(), CompileError>,
}

pub open spec fn fine(unit: Unit) -> Lowered {
    Lowered { unit, result: Ok(()) }
}

pub open spec fn refused(unit: Unit, error: CompileError) -> Lowered {
    Lowered { unit, result: Err(error) }
}

impl Unit {
    /// The state at the start: nothing emitted, nothing defined.
    pub open spec fn start() -> Unit {
        Unit {
            constants: Seq::empty(),
            instructions: Seq::empty(),
            saved: Seq::empty(),
            functions: Seq::empty(),
            symbols: TableModel::empty(),
        }
    }

    /// The position of the next instruction.
    pub open spec fn here(self) -> usize {
        self.instructions.len() as usize
    }

    /// The state with `i` emitted.
    pub open spec fn emit(self, i: Instruction) -> Unit {
        Unit { instructions: self.instructions.push(i), ..self }
    }

    /// The state with `i` in place of the instruction at `at`.
    pub open spec fn patch(self, at: usize, i: Instruction) -> Unit {
        if at < self.instructions.len() {
            Unit { instructions: self.instructions.update(at as int, i), ..self }
        } else {
            self
        }
    }

    /// The state with `v` as one more constant.
    pub open spec fn constant(self, v: Value) -> Unit {
        Unit { constants: self.constants.push(v), ..self }
    }

    pub open spec fn with_symbols(self, symbols: TableModel) -> Unit {
        Unit { symbols, ..self }
    }

    /// The state with the instruction that reads `s` emitted.
    pub open spec fn load(self, s: SymbolView) -> Unit {
        self.emit(
            match s.scope {
                Scope::Global => Instruction::GetGlobal(s.index),
                Scope::Local => Instruction::GetLocal(s.index),
                Scope::Free => Instruction::GetFree(s.index),
                Scope::Builtin => Instruction::GetBuiltin(s.index),
                Scope::Function => Instruction::CurrentClosure,
            },
        )
    }

    /// The state with the instructions that read `frees[i..]` emitted.
    pub open spec fn load_all(self, frees: Seq<SymbolView>, i: int) -> Unit
        decreases frees.len() - i,
    {
        if i < 0 || i >= frees.len() {
            self
        } else {
            self.load(frees[i]).load_all(frees, i + 1)
        }
    }

    /// The state with the instruction that writes `s` emitted, if `s` can
    /// be written: a global or a local.
    pub open spec fn store(self, s: SymbolView) -> Lowered {
        match s.scope {
            Scope::Global => fine(self.emit(Instruction::SetGlobal(s.index))),
            Scope::Local => fine(self.emit(Instruction::SetLocal(s.index))),
            _ => refused(self, CompileError::Unsupported),
        }
    }

    /// The state with the jumps at the positions `at[i..]` patched to jump
    /// to `target`.
    pub open spec fn patch_all(self, at: Seq<usize>, i: int, target: usize) -> Unit
        decreases at.len() - i,
    {
        if i < 0 || i >= at.len() {
            self
        } else {
            self.patch(at[i], Instruction::Jump(target)).patch_all(at, i + 1, target)
        }
    }

    /// The state inside a new function: a new scope, and a new, empty code
    /// unit.
    pub open spec fn enter(self) -> Unit {
        Unit {
            symbols: self.symbols.enclosed(),
            saved: self.saved.push(self.instructions),
            instructions: Seq::empty(),
            ..self
        }
    }

    /// The state after the function: back in the scope and the code unit
    /// around it, with the body of the function added to the bodies.
    pub open spec fn leave(self) -> Unit {
        if self.saved.len() == 0 || self.symbols.outer is None {
            self
        } else {
            Unit {
                symbols: *self.symbols.outer.unwrap(),
                instructions: self.saved.last(),
                saved: self.saved.drop_last(),
                functions: self.functions + self.instructions,
                ..self
            }
        }
    }
}

/// The instruction of a binary operator.
pub open spec fn operator_instruction(op: TokenKind) -> Option<Instruction> {
    match op {
        TokenKind::Plus | TokenKind::PlusSelf => Some(Instruction::Add),
        TokenKind::Star | TokenKind::StarSelf => Some(Instruction::Multiply),
        TokenKind::Slash | TokenKind::SlashSelf => Some(Instruction::Divide),
        TokenKind::Mod | TokenKind::ModSelf => Some(Instruction::Mod),
        TokenKind::Minus | TokenKind::MinusSelf => Some(Instruction::Minus),
        TokenKind::Greater => Some(Instruction::GreaterThan),
        TokenKind::Less => Some(Instruction::LessThan),
        TokenKind::EqualEqual => Some(Instruction::EqualEqual),
        _ => None,
    }
}

/// The constant of a literal, if the compiler has one for it.
pub open spec fn literal_constant(l: LiteralView) -> Option<Value> {
    match l {
        LiteralView::Number(n) => Some(Value::Number(n)),
        LiteralView::String(s) => Some(Value::String(s)),
        LiteralView::Bool(b) => Some(Value::Boolean(b)),
        LiteralView::Nil => Some(Value::Nil),
        _ => None,
    }
}

/// The message of an assertion: the string that the message expression is
/// the literal of, else the empty string.
pub open spec fn assert_message(message: ExprView) -> Seq<char> {
    match message {
        ExprView::Literal(LiteralView::String(s)) => s,
        _ => Seq::empty(),
    }
}

/// The lowering of an assignment of `value` to `target`: the value, a
/// store to the target, and a load that leaves the value on the stack.
/// The target must be a name.
#[verifier::opaque]
pub open spec fn lower_assign(u: Unit, target: ExprView, value: ExprView) -> Lowered
    decreases value, 3nat,
{
    match target {
        ExprView::Ident(name) => match u.symbols.resolved(name) {
            None => refused(u, CompileError::UnresolvedSymbol),
            Some(s) => {
                let a = lower_expr(u.with_symbols(u.symbols.resolve(name)), value);
                match a.result {
                    Err(x) => a,
                    Ok(_) => {
                        let b = a.unit.store(s);
                        match b.result {
                            Err(x) => b,
                            Ok(_) => fine(b.unit.load(s)),
                        }
                    },
                }
            },
        },
        _ => refused(u, CompileError::Unsupported),
    }
}

/// The lowering of the expression `e`.
#[verifier::opaque]
pub open spec fn lower_expr(u: Unit, e: ExprView) -> Lowered
    decreases e, 2nat,
{
    match e {
        ExprView::GroupingExpr(inner) => lower_expr(u, *inner),
        ExprView::InfixExpr(left, op, right) => if op.kind == TokenKind::Equal {
            lower_assign(u, *left, *right)
        } else if crate::semantics::is_compound(op.kind) {
            match *left {
                ExprView::Ident(name) => {
                    let a = lower_expr(u, *left);
                    match a.result {
                        Err(x) => a,
                        Ok(_) => {
                            let b = lower_expr(a.unit, *right);
                            match b.result {
                                Err(x) => b,
                                Ok(_) => match b.unit.symbols.resolved(name) {
                                    None => refused(b.unit, CompileError::UnresolvedSymbol),
                                    Some(s) => b.unit.with_symbols(
                                        b.unit.symbols.resolve(name),
                                    ).emit(operator_instruction(op.kind).unwrap()).store(s),
                                },
                            }
                        },
                    }
                },
                _ => refused(u, CompileError::Unsupported),
            }
        } else {
            let a = lower_expr(u, *left);
            match a.result {
                Err(x) => a,
                Ok(_) => {
                    let b = lower_expr(a.unit, *right);
                    match b.result {
                        Err(x) => b,
                        Ok(_) => match operator_instruction(op.kind) {
                            Some(i) => fine(b.unit.emit(i)),
                            None => refused(b.unit, CompileError::Unsupported),
                        },
                    }
                },
            }
        },
        ExprView::PrintExpr(exprs) => {
            let a = lower_list(u, exprs, 0);
            match a.result {
                Err(x) => a,
                Ok(_) => fine(a.unit.emit(Instruction::Print(exprs.len() as usize))),
            }
        },
        ExprView::PrefixExpr(op, right) => {
            let a = lower_expr(u, *right);
            match a.result {
                Err(x) => a,
                Ok(_) => if op.kind == TokenKind::Minus {
                    fine(a.unit.emit(Instruction::Nagetive))
                } else {
                    refused(a.unit, CompileError::Unsupported)
                },
            }
        },
        ExprView::Literal(l) => match literal_constant(l) {
            Some(v) => fine(
                u.constant(v).emit(Instruction::LoadConstant(u.constants.len() as usize)),
            ),
            None => refused(u, CompileError::Unsupported),
        },
        ExprView::Ident(name) => match u.symbols.resolved(name) {
            None => refused(u, CompileError::UnresolvedSymbol),
            Some(s) => fine(u.with_symbols(u.symbols.resolve(name)).load(s)),
        },
        ExprView::Call { callee, args } => match *callee {
            ExprView::Ident(name) => {
                let a = match builtin_index(name) {
                    Some(i) => fine(u.emit(Instruction::GetBuiltin(i))),
                    None => match u.symbols.resolved(name) {
                        None => refused(u, CompileError::UnresolvedSymbol),
                        Some(s) => fine(u.with_symbols(u.symbols.resolve(name)).load(s)),
                    },
                };
                match a.result {
                    Err(x) => a,
                    Ok(_) => {
                        let b = lower_list(a.unit, args, 0);
                        match b.result {
                            Err(x) => b,
                            Ok(_) => fine(b.unit.emit(Instruction::Call(args.len() as usize))),
                        }
                    },
                }
            },
            _ => refused(u, CompileError::Unsupported),
        },
        ExprView::If { condition, elseif, then_branch, else_branch } => {
            let a = lower_expr(u, *condition);
            match a.result {
                Err(x) => a,
                Ok(_) => {
                    let skip = a.unit.here();
                    let b = lower_stmts(a.unit.emit(Instruction::JumpIfFalse(0)), then_branch, 0);
                    match b.result {
                        Err(x) => b,
                        Ok(_) => {
                            let more = elseif.len() > 0 || else_branch.len() > 0;
                            let c = if more {
                                b.unit.emit(Instruction::Jump(0))
                            } else {
                                b.unit
                            };
                            let ends = if more {
                                seq![b.unit.here()]
                            } else {
                                Seq::empty()
                            };
                            let d = lower_arms(
                                c.patch(skip, Instruction::JumpIfFalse(c.here())),
                                elseif,
                                0,
                                ends,
                            );
                            match d.0.result {
                                Err(x) => d.0,
                                Ok(_) => {
                                    let f = lower_stmts(d.0.unit, else_branch, 0);
                                    match f.result {
                                        Err(x) => f,
                                        Ok(_) => fine(f.unit.patch_all(d.1, 0, f.unit.here())),
                                    }
                                },
                            }
                        },
                    }
                },
            }
        },
        _ => refused(u, CompileError::Unsupported),
    }
}

/// The lowering of the expressions `es[i..]`, one after the other.
#[verifier::opaque]
pub open spec fn lower_list(u: Unit, es: Seq<ExprView>, i: int) -> Lowered
    decreases es, es.len() - i,
{
    if i < 0 || i >= es.len() {
        fine(u)
    } else {
        let a = lower_expr(u, es[i]);
        match a.result {
            Err(x) => a,
            Ok(_) => lower_list(a.unit, es, i + 1),
        }
    }
}

/// The lowering of the `else if` arms `arms[i..]`: for each its
/// condition, a jump past the arm if the condition is false, the arm, and
/// a jump to the end of the chain. Gives with the state the positions of
/// the jumps to the end of the chain, those in `ends` and those of the
/// arms.
#[verifier::opaque]
pub open spec fn lower_arms(
    u: Unit,
    arms: Seq<(ExprView, Seq<StmtView>)>,
    i: int,
    ends: Seq<usize>,
) -> (Lowered, Seq<usize>)
    decreases arms, arms.len() - i,
{
    if i < 0 || i >= arms.len() {
        (fine(u), ends)
    } else {
        let a = lower_expr(u, arms[i].0);
        match a.result {
            Err(x) => (a, ends),
            Ok(_) => {
                let skip = a.unit.here();
                let b = lower_stmts(a.unit.emit(Instruction::JumpIfFalse(0)), arms[i].1, 0);
                match b.result {
                    Err(x) => (b, ends),
                    Ok(_) => {
                        let c = b.unit.emit(Instruction::Jump(0));
                        lower_arms(
                            c.patch(skip, Instruction::JumpIfFalse(c.here())),
                            arms,
                            i + 1,
                            ends.push(b.unit.here()),
                        )
                    },
                }
            },
        }
    }
}

/// The state with the parameters `params[i..]` defined.
pub open spec fn define_parameters(u: Unit, params: Seq<Seq<char>>, i: int) -> Lowered
    decreases params.len() - i,
{
    if i < 0 || i >= params.len() {
        fine(u)
    } else if u.symbols.definitions >= usize::MAX {
        refused(u, CompileError::TooManySymbols)
    } else {
        define_parameters(u.with_symbols(u.symbols.define(params[i])), params, i + 1)
    }
}

/// The lowering of the statement `s`.
#[verifier::opaque]
pub open spec fn lower_stmt(u: Unit, s: StmtView) -> Lowered
    decreases s, 2nat,
{
    match s {
        StmtView::Expr(e) => lower_expr(u, e),
        StmtView::Var(name, e) => {
            let a = lower_expr(u, e);
            match a.result {
                Err(x) => a,
                Ok(_) => if a.unit.symbols.definitions >= usize::MAX {
                    refused(a.unit, CompileError::TooManySymbols)
                } else {
                    a.unit.with_symbols(a.unit.symbols.define(name)).store(
                        a.unit.symbols.fresh(name),
                    )
                },
            }
        },
        StmtView::Block(body) => lower_stmts(u, body, 0),
        StmtView::Function(name, params, body) => if u.symbols.definitions >= usize::MAX {
            refused(u, CompileError::TooManySymbols)
        } else {
            let own = u.symbols.fresh(name);
            let inner = u.with_symbols(u.symbols.define(name)).enter();
            let named = inner.with_symbols(
                inner.symbols.bind(SymbolView { name, scope: Scope::Function, index: 0 }),
            );
            let a = define_parameters(named, params, 0);
            match a.result {
                Err(x) => a,
                Ok(_) => {
                    let b = lower_stmts(a.unit, body, 0);
                    match b.result {
                        Err(x) => b,
                        Ok(_) => {
                            let function = Value::CompiledFunction {
                                start: b.unit.functions.len() as usize,
                                len: b.unit.instructions.len() as usize,
                                num_locals: b.unit.symbols.definitions,
                                num_parameters: params.len() as usize,
                            };
                            let frees = b.unit.symbols.frees;
                            let c = b.unit.leave().load_all(frees, 0);
                            let index = c.constants.len() as usize;
                            c.constant(function).emit(Instruction::LoadConstant(index)).emit(
                                Instruction::Closure(index, frees.len() as usize),
                            ).store(own)
                        },
                    }
                },
            }
        },
        StmtView::For { init, conditions, step, block } => {
            let a = lower_stmt(u, *init);
            match a.result {
                Err(x) => a,
                Ok(_) => {
                    let start = a.unit.here();
                    let b = lower_expr(a.unit, *conditions);
                    match b.result {
                        Err(x) => b,
                        Ok(_) => {
                            let skip = b.unit.here();
                            let c = lower_stmts(
                                b.unit.emit(Instruction::JumpIfFalse(0)),
                                block,
                                0,
                            );
                            match c.result {
                                Err(x) => c,
                                Ok(_) => {
                                    let d = lower_stmt(c.unit, *step);
                                    match d.result {
                                        Err(x) => d,
                                        Ok(_) => {
                                            let f = d.unit.emit(Instruction::Jump(start));
                                            fine(
                                                f.patch(skip, Instruction::JumpIfFalse(f.here())),
                                            )
                                        },
                                    }
                                },
                            }
                        },
                    }
                },
            }
        },
        StmtView::While(condition, body) => {
            let start = u.here();
            let b = lower_expr(u, condition);
            match b.result {
                Err(x) => b,
                Ok(_) => {
                    let skip = b.unit.here();
                    let c = lower_stmts(b.unit.emit(Instruction::JumpIfFalse(0)), body, 0);
                    match c.result {
                        Err(x) => c,
                        Ok(_) => {
                            let f = c.unit.emit(Instruction::Jump(start));
                            fine(f.patch(skip, Instruction::JumpIfFalse(f.here())))
                        },
                    }
                },
            }
        },
        StmtView::Assert { condition, message } => {
            let a = lower_expr(u, *condition);
            match a.result {
                Err(x) => a,
                Ok(_) => {
                    let at = a.unit.here();
                    let b = a.unit.emit(Instruction::Assert(0));
                    if assert_message(*message).len() == 0 {
                        fine(b.patch(at, Instruction::Assert(b.here())))
                    } else {
                        let c = lower_expr(b, *message);
                        match c.result {
                            Err(x) => c,
                            Ok(_) => {
                                let d = c.unit.emit(Instruction::Print(1)).emit(
                                    Instruction::Exit(3),
                                );
                                fine(d.patch(at, Instruction::Assert(d.here())))
                            },
                        }
                    }
                },
            }
        },
        StmtView::Assign(target, value) => lower_assign(u, target, value),
        StmtView::Return(e) => {
            let a = lower_expr(u, e);
            match a.result {
                Err(x) => a,
                Ok(_) => fine(a.unit.emit(Instruction::ReturnValue)),
            }
        },
        _ => refused(u, CompileError::Unsupported),
    }
}

/// The lowering of the statements `ss[i..]`, one after the other.
#[verifier::opaque]
pub open spec fn lower_stmts(u: Unit, ss: Seq<StmtView>, i: int) -> Lowered
    decreases ss, ss.len() - i,
{
    if i < 0 || i >= ss.len() {
        fine(u)
    } else {
        let a = lower_stmt(u, ss[i]);
        match a.result {
            Err(x) => a,
            Ok(_) => lower_stmts(a.unit, ss, i + 1),
        }
    }
}

/// Whether every jump of `code` goes to a position of `code`, or to its
/// end.
pub open spec fn jumps_in_range(code: Seq<Instruction>) -> bool {
    forall|i: int|
        0 <= i < code.len() ==> match (#[trigger] code[i]).target() {
            Some(t) => t <= code.len(),
            None => true,
        }
}

/// The code that the machine runs: the bodies of the functions, and the
/// main program after them.
pub open spec fn linked(u: Unit) -> (usize, Seq<Instruction>) {
    (u.functions.len() as usize, u.functions + u.instructions)
}

/// The end of an `if` chain is shared: once the jumps at the positions
/// `at[i..]` are patched, each of them is a jump to the one position
/// `target`, and nothing else has changed.
pub proof fn lemma_chain_ends_together(u: Unit, at: Seq<usize>, i: int, target: usize)
    requires
        0 <= i,
        forall|j: int| 0 <= j < at.len() ==> (#[trigger] at[j]) < u.instructions.len(),
    ensures
        u.patch_all(at, i, target).instructions.len() == u.instructions.len(),
        forall|j: int|
            i <= j < at.len() ==> u.patch_all(at, i, target).instructions[(#[trigger] at[j]) as int]
                == Instruction::Jump(target),
        forall|p: int|
            0 <= p < u.instructions.len() && (forall|j: int|
                i <= j < at.len() ==> (#[trigger] at[j]) != p) ==> u.patch_all(
                at,
                i,
                target,
            ).instructions[p] == u.instructions[p],
    decreases at.len() - i,
{
    if i < at.len() {
        let next = u.patch(at[i], Instruction::Jump(target));
        lemma_chain_ends_together(next, at, i + 1, target);
        let done = u.patch_all(at, i, target);
        assert(done == next.patch_all(at, i + 1, target));
        assert forall|j: int| i <= j < at.len() implies done.instructions[(
        #[trigger] at[j]) as int] == Instruction::Jump(target) by {
            if j > i {
            } else {
                if forall|k: int| i + 1 <= k < at.len() ==> (#[trigger] at[k]) != at[i] as int {
                    assert(done.instructions[at[i] as int] == next.instructions[at[i] as int]);
                } else {
                    let k = choose|k: int| i + 1 <= k < at.len() && at[k] == at[i] as int;
                    assert(done.instructions[at[k] as int] == Instruction::Jump(target));
                }
            }
        }
        assert forall|p: int|
            0 <= p < u.instructions.len() && (forall|j: int|
                i <= j < at.len() ==> (#[trigger] at[j]) != p) implies done.instructions[p]
            == u.instructions[p] by {
            assert(at[i] != p);
            assert(forall|j: int| i + 1 <= j < at.len() ==> (#[trigger] at[j]) != p);
            assert(done.instructions[p] == next.instructions[p]);
        }
    }
}

} // verus!
