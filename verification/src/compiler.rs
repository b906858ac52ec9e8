//! The bytecode compiler. What it emits is stated by the lowering.

use crate::ast::{stmts_view, Program};
use crate::builtins::Builtins;
use crate::lowering::{jumps_in_range, linked, lower_stmts, refused, CompileError, Lowered, Unit};
use crate::objects::{lemma_values_len, lemma_values_push, values, Object};
use crate::opcode::{code, Instruction, Opcode};
use crate::symbol::{Scope, Symbol, SymbolTable, SymbolView};
use vstd::prelude::*;

pub mod exprs;
pub mod stmts;

verus! {

/// A compiler of one program.
pub struct Compiler {
    program: Program,
    pub constants: Vec<Object<'static>>,
    pub instructions: Vec<Opcode>,
    saved: Vec<Vec<Opcode>>,
    functions: Vec<Opcode>,
    bodies: Vec<(usize, usize)>,
    pub builtins: Builtins,
    pub symbols: SymbolTable,
}

/// What `r` and the state `u` are as the result of a piece of lowering.
pub open spec fn lowered(u: Unit, r: Result<(), CompileError>) -> Lowered {
    Lowered { unit: u, result: r }
}

impl Compiler {
    /// The state of the compilation.
    pub closed spec fn unit(&self) -> Unit {
        Unit {
            constants: values(self.constants@),
            instructions: code(self.instructions@),
            saved: self.saved@.map_values(|v: Vec<Opcode>| code(v@)),
            functions: code(self.functions@),
            symbols: self.symbols.model(),
        }
    }

    /// Where each function body compiled so far stands among the bodies:
    /// its start and its length.
    pub closed spec fn bodies(&self) -> Seq<(usize, usize)> {
        self.bodies@
    }

    /// The program being compiled.
    pub closed spec fn program(&self) -> Seq<crate::ast::StmtView> {
        stmts_view(self.program@)
    }

    /// The compiler's invariant.
    pub closed spec fn wf(&self) -> bool {
        self.builtins.wf()
    }

    /// Every jump emitted so far stays inside its code unit: in the unit
    /// being compiled, in the units around it, and in each function body,
    /// every `Jump`, `JumpIfFalse` and `Assert` goes to a position of the
    /// unit or to its end.
    pub open spec fn ranged(&self) -> bool {
        &&& jumps_in_range(self.unit().instructions)
        &&& forall|k: int|
            0 <= k < self.unit().saved.len() ==> jumps_in_range(#[trigger] self.unit().saved[k])
        &&& forall|k: int|
            0 <= k < self.bodies().len() ==> {
                let (start, len) = #[trigger] self.bodies()[k];
                &&& start + len <= self.unit().functions.len()
                &&& jumps_in_range(self.unit().functions.subrange(start as int, start + len))
            }
    }

    /// Whether the code unit being compiled has not shrunk since `before`,
    /// and the units and the scopes around it are as they were.
    pub open spec fn grown(&self, before: &Self) -> bool {
        &&& self.unit().saved == before.unit().saved
        &&& self.unit().symbols.outer == before.unit().symbols.outer
        &&& self.unit().instructions.len() >= before.unit().instructions.len()
    }

    /// Whether this compiler is `before` after some lowering.
    pub open spec fn after(&self, before: &Self) -> bool {
        &&& self.wf()
        &&& self.ranged()
        &&& self.program() == before.program()
    }

    /// A compiler of `program`, with nothing emitted and nothing defined.
    pub fn new(program: Program) -> (c: Compiler)
        ensures
            c.wf(),
            c.ranged(),
            c.program() == stmts_view(program@),
            c.unit() == Unit::start(),
            c.bodies().len() == 0,
    {
        let c = Compiler {
            program,
            constants: Vec::new(),
            instructions: Vec::new(),
            saved: Vec::new(),
            functions: Vec::new(),
            bodies: Vec::new(),
            builtins: Builtins::new(),
            symbols: SymbolTable::new(),
        };
        proof {
            assert(values(c.constants@) =~= Seq::empty());
            assert(c.unit().instructions =~= Seq::empty());
            assert(c.unit().saved =~= Seq::empty());
            assert(c.unit().functions =~= Seq::empty());
        }
        c
    }

    /// Compiles the program: lowers its statements, one after the other.
    ///
    /// Gives the first refusal, if a statement is refused; what was
    /// emitted before it stays emitted.
    pub fn compile(&mut self) -> (r: Result<(), CompileError>)
        requires
            old(self).wf(),
            old(self).ranged(),
        ensures
            final(self).after(old(self)),
            lowered(final(self).unit(), r) == lower_stmts(
                old(self).unit(),
                old(self).program(),
                0,
            ),
    {
        let mut program: Program = Vec::new();
        std::mem::swap(&mut program, &mut self.program);
        proof {
            assert(self.unit().saved =~= old(self).unit().saved);
            assert(self.unit() == old(self).unit());
            assert(self.bodies() == old(self).bodies());
        }
        let ghost unit = self.unit();
        let ghost bodies = self.bodies();
        let r = self.compile_statements(&program);
        let ghost done = self.unit();
        let ghost done_bodies = self.bodies();
        std::mem::swap(&mut program, &mut self.program);
        proof {
            assert(self.unit().saved =~= done.saved);
            assert(self.unit() == done);
            assert(self.bodies() == done_bodies);
        }
        r
    }

    /// The code for the machine: where the main program starts, and the
    /// function bodies with the main program after them.
    pub fn get_instructions(&self) -> (r: (usize, Vec<Opcode>))
        ensures
            (r.0, code(r.1@)) == linked(self.unit()),
    {
        let mut all: Vec<Opcode> = Vec::new();
        let mut i: usize = 0;
        while i < self.functions.len()
            invariant
                i <= self.functions.len(),
                code(all@) == code(self.functions@).take(i as int),
            decreases self.functions.len() - i,
        {
            let ghost before = all@;
            let o = self.functions[i].duplicate();
            all.push(o);
            assert(code(all@) =~= code(before).push(o@));
            assert(code(self.functions@).take(i + 1) =~= code(self.functions@).take(
                i as int,
            ).push(code(self.functions@)[i as int]));
            i += 1;
        }
        assert(code(self.functions@).take(self.functions@.len() as int) =~= code(
            self.functions@,
        ));
        let mut j: usize = 0;
        while j < self.instructions.len()
            invariant
                j <= self.instructions.len(),
                code(all@) == code(self.functions@) + code(self.instructions@).take(j as int),
            decreases self.instructions.len() - j,
        {
            let ghost before = all@;
            let o = self.instructions[j].duplicate();
            all.push(o);
            assert(code(all@) =~= code(before).push(o@));
            assert(code(self.instructions@).take(j + 1) =~= code(self.instructions@).take(
                j as int,
            ).push(code(self.instructions@)[j as int]));
            assert(code(all@) =~= code(self.functions@) + code(self.instructions@).take(j + 1));
            j += 1;
        }
        assert(code(self.instructions@).take(self.instructions@.len() as int) =~= code(
            self.instructions@,
        ));
        (self.functions.len(), all)
    }

    /// The constants, copied.
    pub fn get_constants(&self) -> (r: Vec<Object<'static>>)
        ensures
            values(r@) == self.unit().constants,
    {
        crate::objects::duplicate_all(&self.constants)
    }

    /// The position of the next instruction.
    pub fn here(&self) -> (n: usize)
        ensures
            n == self.unit().here(),
            n == self.unit().instructions.len(),
    {
        self.instructions.len()
    }

    /// Whether `op` can follow what has been emitted without a jump
    /// leaving the unit: it is no jump, or it goes to a position of the
    /// unit, or to the end that the unit has once `op` is emitted.
    pub open spec fn takes(&self, op: Instruction) -> bool {
        op.target() is Some ==> op.target().unwrap() <= self.unit().instructions.len() + 1
    }

    /// Emits `op`. Every jump still stays inside its unit afterwards if
    /// `op` is no jump that leaves it.
    pub fn emit(&mut self, op: Opcode)
        requires
            old(self).wf(),
        ensures
            final(self).wf(),
            final(self).program() == old(self).program(),
            final(self).unit() == old(self).unit().emit(op@),
            final(self).bodies() == old(self).bodies(),
            old(self).ranged() && old(self).takes(op@) ==> final(self).ranged(),
    {
        self.instructions.push(op);
        proof {
            assert(self.unit().instructions =~= old(self).unit().instructions.push(op@));
            assert(self.unit().saved =~= old(self).unit().saved);
            if old(self).ranged() && old(self).takes(op@) {
                let now = self.unit().instructions;
                let was = old(self).unit().instructions;
                assert forall|i: int| 0 <= i < now.len() implies match (#[trigger] now[i]).target() {
                    Some(t) => t <= now.len(),
                    None => true,
                } by {
                    if i < was.len() {
                        assert(now[i] == was[i]);
                    }
                }
                assert forall|k: int| 0 <= k < self.bodies().len() implies {
                    let (start, len) = #[trigger] self.bodies()[k];
                    &&& start + len <= self.unit().functions.len()
                    &&& jumps_in_range(self.unit().functions.subrange(start as int, start + len))
                } by {
                    assert(old(self).bodies()[k] == self.bodies()[k]);
                }
            }
        }
    }

    /// Emits `op` and gives its position.
    pub fn emit_return_position(&mut self, op: Opcode) -> (at: usize)
        requires
            old(self).wf(),
        ensures
            final(self).wf(),
            final(self).program() == old(self).program(),
            at == old(self).unit().here(),
            final(self).unit() == old(self).unit().emit(op@),
            final(self).bodies() == old(self).bodies(),
            old(self).ranged() && old(self).takes(op@) ==> final(self).ranged(),
    {
        let at = self.instructions.len();
        self.emit(op);
        at
    }

    /// Emits the load of the constant at `index`.
    pub fn emit_load_constant(&mut self, index: usize)
        requires
            old(self).wf(),
        ensures
            final(self).wf(),
            final(self).program() == old(self).program(),
            old(self).ranged() ==> final(self).ranged(),
            final(self).unit() == old(self).unit().emit(Instruction::LoadConstant(index)),
            final(self).bodies() == old(self).bodies(),
    {
        self.emit(Opcode::LoadConstant(index));
    }

    /// Emits an addition.
    pub fn emit_add(&mut self)
        requires
            old(self).wf(),
        ensures
            final(self).wf(),
            final(self).program() == old(self).program(),
            old(self).ranged() ==> final(self).ranged(),
            final(self).unit() == old(self).unit().emit(Instruction::Add),
            final(self).bodies() == old(self).bodies(),
    {
        self.emit(Opcode::Add);
    }

    /// Puts `op` in place of the instruction at `at`. A jump must go to a
    /// position of the unit or to its end.
    pub(crate) fn patch(&mut self, at: usize, op: Opcode)
        requires
            old(self).wf(),
            old(self).ranged(),
            op@.target() is Some ==> op@.target().unwrap() <= old(self).unit().instructions.len(),
        ensures
            final(self).after(old(self)),
            final(self).unit() == old(self).unit().patch(at, op@),
            final(self).bodies() == old(self).bodies(),
    {
        if at < self.instructions.len() {
            self.instructions[at] = op;
            proof {
                assert(self.unit().instructions =~= old(self).unit().instructions.update(
                    at as int,
                    op@,
                ));
                assert(self.unit().saved =~= old(self).unit().saved);
                let now = self.unit().instructions;
                let was = old(self).unit().instructions;
                assert forall|i: int| 0 <= i < now.len() implies match (
                #[trigger] now[i]).target() {
                    Some(t) => t <= now.len(),
                    None => true,
                } by {
                    if i != at {
                        assert(now[i] == was[i]);
                    }
                }
                assert forall|k: int| 0 <= k < self.bodies().len() implies {
                    let (start, len) = #[trigger] self.bodies()[k];
                    &&& start + len <= self.unit().functions.len()
                    &&& jumps_in_range(self.unit().functions.subrange(start as int, start + len))
                } by {
                    assert(old(self).bodies()[k] == self.bodies()[k]);
                }
            }
        }
    }

    /// Adds `v` to the constants and gives its index.
    pub(crate) fn add_constant(&mut self, v: Object<'static>) -> (index: usize)
        requires
            old(self).wf(),
            old(self).ranged(),
        ensures
            final(self).after(old(self)),
            index == old(self).unit().constants.len(),
            final(self).unit() == old(self).unit().constant(v.view()),
            final(self).bodies() == old(self).bodies(),
    {
        proof {
            lemma_values_len(self.constants@);
            lemma_values_push(self.constants@, v);
        }
        let index = self.constants.len();
        self.constants.push(v);
        proof {
            assert(self.unit().saved =~= old(self).unit().saved);
            assert forall|k: int| 0 <= k < self.bodies().len() implies {
                let (start, len) = #[trigger] self.bodies()[k];
                &&& start + len <= self.unit().functions.len()
                &&& jumps_in_range(self.unit().functions.subrange(start as int, start + len))
            } by {
                assert(old(self).bodies()[k] == self.bodies()[k]);
            }
        }
        index
    }

    /// Resolves `name` in the current scope.
    pub(crate) fn resolve(&mut self, name: &String) -> (r: Option<Symbol>)
        requires
            old(self).wf(),
            old(self).ranged(),
        ensures
            final(self).after(old(self)),
            match r {
                Some(s) => Some(s@),
                None => None,
            } == old(self).unit().symbols.resolved(name@),
            final(self).unit() == old(self).unit().with_symbols(
                old(self).unit().symbols.resolve(name@),
            ),
            final(self).bodies() == old(self).bodies(),
    {
        let r = self.symbols.resolve(name.as_str());
        proof {
            assert(self.unit().saved =~= old(self).unit().saved);
            assert forall|k: int| 0 <= k < self.bodies().len() implies {
                let (start, len) = #[trigger] self.bodies()[k];
                &&& start + len <= self.unit().functions.len()
                &&& jumps_in_range(self.unit().functions.subrange(start as int, start + len))
            } by {
                assert(old(self).bodies()[k] == self.bodies()[k]);
            }
        }
        r
    }

    /// Whether the current scope has room for one more definition.
    pub(crate) fn has_room(&self) -> (b: bool)
        ensures
            b == (self.unit().symbols.definitions < usize::MAX),
    {
        self.symbols.definitions() < usize::MAX
    }

    /// Defines `name` in the current scope.
    pub(crate) fn define(&mut self, name: String) -> (s: Symbol)
        requires
            old(self).wf(),
            old(self).ranged(),
            old(self).unit().symbols.definitions < usize::MAX,
        ensures
            final(self).after(old(self)),
            s@ == old(self).unit().symbols.fresh(name@),
            final(self).unit() == old(self).unit().with_symbols(
                old(self).unit().symbols.define(name@),
            ),
            final(self).bodies() == old(self).bodies(),
    {
        let s = self.symbols.define(name);
        proof {
            assert(self.unit().saved =~= old(self).unit().saved);
            assert forall|k: int| 0 <= k < self.bodies().len() implies {
                let (start, len) = #[trigger] self.bodies()[k];
                &&& start + len <= self.unit().functions.len()
                &&& jumps_in_range(self.unit().functions.subrange(start as int, start + len))
            } by {
                assert(old(self).bodies()[k] == self.bodies()[k]);
            }
        }
        s
    }

    /// Binds `name` to the function being compiled.
    pub(crate) fn define_function_name(&mut self, name: String)
        requires
            old(self).wf(),
            old(self).ranged(),
        ensures
            final(self).after(old(self)),
            final(self).unit() == old(self).unit().with_symbols(
                old(self).unit().symbols.bind(
                    SymbolView { name: name@, scope: Scope::Function, index: 0 },
                ),
            ),
            final(self).bodies() == old(self).bodies(),
    {
        let _ = self.symbols.define_function_name(name);
        proof {
            assert(self.unit().saved =~= old(self).unit().saved);
            assert forall|k: int| 0 <= k < self.bodies().len() implies {
                let (start, len) = #[trigger] self.bodies()[k];
                &&& start + len <= self.unit().functions.len()
                &&& jumps_in_range(self.unit().functions.subrange(start as int, start + len))
            } by {
                assert(old(self).bodies()[k] == self.bodies()[k]);
            }
        }
    }

    /// Emits the instruction that reads `s`.
    pub(crate) fn load_symbol(&mut self, s: &Symbol)
        requires
            old(self).wf(),
            old(self).ranged(),
        ensures
            final(self).after(old(self)),
            final(self).unit() == old(self).unit().load(s@),
            final(self).bodies() == old(self).bodies(),
    {
        match s.scope {
            Scope::Global => self.emit(Opcode::GetGlobal(s.index)),
            Scope::Local => self.emit(Opcode::GetLocal(s.index)),
            Scope::Free => self.emit(Opcode::GetFree(s.index)),
            Scope::Builtin => self.emit(Opcode::GetBuiltin(s.index)),
            Scope::Function => self.emit(Opcode::CurrentClosure),
        }
    }

    /// Emits the instruction that writes `s`, if `s` can be written.
    pub(crate) fn store_symbol(&mut self, s: &Symbol) -> (r: Result<(), CompileError>)
        requires
            old(self).wf(),
            old(self).ranged(),
        ensures
            final(self).after(old(self)),
            lowered(final(self).unit(), r) == old(self).unit().store(s@),
            final(self).bodies() == old(self).bodies(),
    {
        match s.scope {
            Scope::Global => {
                self.emit(Opcode::SetGlobal(s.index));
                Ok(())
            },
            Scope::Local => {
                self.emit(Opcode::SetLocal(s.index));
                Ok(())
            },
            _ => Err(CompileError::Unsupported),
        }
    }

    /// Begins a function: a new scope and a new, empty code unit.
    pub(crate) fn enter_scope(&mut self)
        requires
            old(self).wf(),
            old(self).ranged(),
        ensures
            final(self).after(old(self)),
            final(self).unit() == old(self).unit().enter(),
            final(self).bodies() == old(self).bodies(),
    {
        let mut table = SymbolTable::new();
        std::mem::swap(&mut table, &mut self.symbols);
        self.symbols = SymbolTable::new_enclosed(table);
        let mut unit: Vec<Opcode> = Vec::new();
        std::mem::swap(&mut unit, &mut self.instructions);
        self.saved.push(unit);
        proof {
            assert(self.unit().instructions =~= Seq::empty());
            assert(self.unit().saved =~= old(self).unit().saved.push(
                old(self).unit().instructions,
            ));
            assert forall|k: int| 0 <= k < self.unit().saved.len() implies jumps_in_range(
                #[trigger] self.unit().saved[k],
            ) by {
                if k < old(self).unit().saved.len() {
                    assert(self.unit().saved[k] == old(self).unit().saved[k]);
                }
            }
            assert forall|k: int| 0 <= k < self.bodies().len() implies {
                let (start, len) = #[trigger] self.bodies()[k];
                &&& start + len <= self.unit().functions.len()
                &&& jumps_in_range(self.unit().functions.subrange(start as int, start + len))
            } by {
                assert(old(self).bodies()[k] == self.bodies()[k]);
            }
        }
    }

    /// Ends a function: goes back to the scope and the code unit around
    /// it, and adds the body to the bodies. Does nothing outside a
    /// function.
    pub(crate) fn leave_scope(&mut self)
        requires
            old(self).wf(),
            old(self).ranged(),
        ensures
            final(self).after(old(self)),
            final(self).unit() == old(self).unit().leave(),
    {
        if self.saved.len() == 0 || self.symbols.is_outermost() {
            return ;
        }
        let mut table = SymbolTable::new();
        std::mem::swap(&mut table, &mut self.symbols);
        match table.leave() {
            Some(outer) => {
                self.symbols = outer;
            },
            None => {},
        }
        let mut body = self.saved.pop().unwrap();
        std::mem::swap(&mut body, &mut self.instructions);
        let start = self.functions.len();
        let len = body.len();
        let ghost body_code = code(body@);
        let ghost was = code(self.functions@);
        self.functions.append(&mut body);
        if start <= usize::MAX - len {
            self.bodies.push((start, len));
        }
        proof {
            assert(code(self.functions@) =~= was + body_code);
            assert(self.unit().saved =~= old(self).unit().saved.drop_last());
            assert(self.unit().instructions == old(self).unit().saved.last());
            assert forall|k: int| 0 <= k < self.unit().saved.len() implies jumps_in_range(
                #[trigger] self.unit().saved[k],
            ) by {
                assert(self.unit().saved[k] == old(self).unit().saved[k]);
            }
            assert forall|k: int| 0 <= k < self.bodies().len() implies {
                let (start, len) = #[trigger] self.bodies()[k];
                &&& start + len <= self.unit().functions.len()
                &&& jumps_in_range(self.unit().functions.subrange(start as int, start + len))
            } by {
                if k < old(self).bodies().len() {
                    let (s0, l0) = old(self).bodies()[k];
                    assert(self.bodies()[k] == old(self).bodies()[k]);
                    assert(self.unit().functions.subrange(s0 as int, s0 + l0) =~= was.subrange(
                        s0 as int,
                        s0 + l0,
                    ));
                } else {
                    assert(self.unit().functions.subrange(start as int, start + len)
                        =~= body_code);
                }
            }
        }
    }

    /// How many definitions the current scope has, and the symbols it
    /// captures.
    pub(crate) fn scope_summary(&self) -> (r: (usize, Vec<Symbol>, usize, usize))
        ensures
            r.0 == self.unit().symbols.definitions,
            crate::symbol::symbol_views(r.1@) == self.unit().symbols.frees,
            r.2 == self.unit().functions.len(),
            r.3 == self.unit().instructions.len(),
    {
        (
            self.symbols.definitions(),
            self.symbols.captured(),
            self.functions.len(),
            self.instructions.len(),
        )
    }
}

} // verus!
