//! Statements.

use super::{lowered, Compiler};
use crate::ast::{
    idents_view, lemma_stmts_index, lemma_stmts_len, stmts_view, ExprType, Ident, Literal, Stmt,
    StmtView,
};
use crate::lowering::{
    assert_message, define_parameters, lower_assign, lower_expr, lower_stmt, lower_stmts,
    CompileError,
};
use crate::objects::Object;
use crate::opcode::Opcode;
use crate::symbol::Symbol;
use vstd::prelude::*;

verus! {

fn has_message(message: &ExprType) -> (b: bool)
    ensures
        b == (assert_message(message.view()).len() > 0),
{
    proof {
        reveal_with_fuel(ExprType::view, 2);
    }
    match message {
        ExprType::Literal(Literal::String(s)) => s.as_str().unicode_len() > 0,
        _ => false,
    }
}

impl Compiler {
    /// Lowers the statements `ss`, one after the other.
    pub(crate) fn compile_statements(&mut self, ss: &Vec<Stmt>) -> (r: Result<(), CompileError>)
        requires
            old(self).wf(),
            old(self).ranged(),
        ensures
            final(self).after(old(self)),
            r is Ok ==> final(self).grown(old(self)),
            lowered(final(self).unit(), r) == lower_stmts(old(self).unit(), stmts_view(ss@), 0),
        decreases stmts_view(ss@), ss.len(),
    {
        let mut i: usize = 0;
        while i < ss.len()
            invariant
                i <= ss.len(),
                self.after(old(self)),
                self.grown(old(self)),
                lower_stmts(old(self).unit(), stmts_view(ss@), 0) == lower_stmts(
                    self.unit(),
                    stmts_view(ss@),
                    i as int,
                ),
            decreases ss.len() - i,
        {
            proof {
                reveal(lower_stmts);
                reveal(lower_stmt);
                lemma_stmts_index(ss@, i as int);
            }
            match self.compile_statement(&ss[i]) {
                Err(x) => {
                    return Err(x);
                },
                Ok(_) => {},
            }
            i += 1;
        }
        proof {
            reveal(lower_stmts);
            reveal(lower_stmt);
            lemma_stmts_len(ss@);
        }
        Ok(())
    }

    /// Lowers the statement `s`.
    pub(crate) fn compile_statement(&mut self, s: &Stmt) -> (r: Result<(), CompileError>)
        requires
            old(self).wf(),
            old(self).ranged(),
        ensures
            final(self).after(old(self)),
            r is Ok ==> final(self).grown(old(self)),
            lowered(final(self).unit(), r) == lower_stmt(old(self).unit(), s.view()),
        decreases s.view(), 2nat,
    {
        match s {
            Stmt::Expr(e) => {
                proof {
                    reveal(lower_stmt);
                    reveal(lower_expr);
                }
                self.compile_expression(e)
            },
            Stmt::Var(name, e) => {
                proof {
                    reveal(lower_stmt);
                    reveal(lower_expr);
                }
                match self.compile_expression(e) {
                    Err(x) => Err(x),
                    Ok(_) => {
                        if !self.has_room() {
                            return Err(CompileError::TooManySymbols);
                        }
                        let symbol = self.define(name.0.clone());
                        self.store_symbol(&symbol)
                    },
                }
            },
            Stmt::Block(body) => {
                proof {
                    reveal(lower_stmt);
                    reveal(lower_stmts);
                }
                self.compile_statements(body)
            },
            Stmt::Function(name, params, body) => self.compile_function(s, name, params, body),
            Stmt::For { init, conditions, step, block } => self.compile_for(
                s,
                init,
                conditions,
                step,
                block,
            ),
            Stmt::While(condition, body) => {
                proof {
                    reveal(lower_stmt);
                    reveal(lower_expr);
                    reveal(lower_stmts);
                }
                let start = self.here();
                match self.compile_expression(condition) {
                    Err(x) => {
                        return Err(x);
                    },
                    Ok(_) => {},
                }
                let skip = self.emit_return_position(Opcode::JumpIfFalse(0));
                match self.compile_statements(body) {
                    Err(x) => {
                        return Err(x);
                    },
                    Ok(_) => {},
                }
                self.emit(Opcode::Jump(start));
                let here = self.here();
                self.patch(skip, Opcode::JumpIfFalse(here));
                Ok(())
            },
            Stmt::Assert { condition, message } => self.compile_assert(s, condition, message),
            Stmt::Assign(target, value) => {
                proof {
                    reveal(lower_stmt);
                    reveal(lower_assign);
                }
                self.compile_assign(target, value)
            },
            Stmt::Return(e) => {
                proof {
                    reveal(lower_stmt);
                    reveal(lower_expr);
                }
                match self.compile_expression(e) {
                    Err(x) => Err(x),
                    Ok(_) => {
                        self.emit(Opcode::ReturnValue);
                        Ok(())
                    },
                }
            },
            _ => {
                proof {
                    reveal(lower_stmt);
                }
                Err(CompileError::Unsupported)
            },
        }
    }

    fn compile_assert(&mut self, s: &Stmt, condition: &ExprType, message: &ExprType) -> (r: Result<
        (),
        CompileError,
    >)
        requires
            old(self).wf(),
            old(self).ranged(),
            s.view() == (StmtView::Assert {
                condition: Box::new(condition.view()),
                message: Box::new(message.view()),
            }),
        ensures
            final(self).after(old(self)),
            r is Ok ==> final(self).grown(old(self)),
            lowered(final(self).unit(), r) == lower_stmt(old(self).unit(), s.view()),
        decreases s.view(), 1nat,
    {
        proof {
            reveal(lower_stmt);
            reveal(lower_expr);
        }
        match self.compile_expression(condition) {
            Err(x) => {
                return Err(x);
            },
            Ok(_) => {},
        }
        let at = self.emit_return_position(Opcode::Assert(0));
        if !has_message(message) {
            let here = self.here();
            self.patch(at, Opcode::Assert(here));
            return Ok(());
        }
        match self.compile_expression(message) {
            Err(x) => {
                return Err(x);
            },
            Ok(_) => {},
        }
        self.emit(Opcode::Print(1));
        self.emit(Opcode::Exit(3));
        let here = self.here();
        self.patch(at, Opcode::Assert(here));
        Ok(())
    }

    fn compile_for(
        &mut self,
        s: &Stmt,
        init: &Stmt,
        conditions: &ExprType,
        step: &Stmt,
        block: &Vec<Stmt>,
    ) -> (r: Result<(), CompileError>)
        requires
            old(self).wf(),
            old(self).ranged(),
            s.view() == (StmtView::For {
                init: Box::new(init.view()),
                conditions: Box::new(conditions.view()),
                step: Box::new(step.view()),
                block: stmts_view(block@),
            }),
        ensures
            final(self).after(old(self)),
            r is Ok ==> final(self).grown(old(self)),
            lowered(final(self).unit(), r) == lower_stmt(old(self).unit(), s.view()),
        decreases s.view(), 1nat,
    {
        proof {
            reveal(lower_stmt);
            reveal(lower_expr);
            reveal(lower_stmts);
        }
        match self.compile_statement(init) {
            Err(x) => {
                return Err(x);
            },
            Ok(_) => {},
        }
        let start = self.here();
        match self.compile_expression(conditions) {
            Err(x) => {
                return Err(x);
            },
            Ok(_) => {},
        }
        let skip = self.emit_return_position(Opcode::JumpIfFalse(0));
        match self.compile_statements(block) {
            Err(x) => {
                return Err(x);
            },
            Ok(_) => {},
        }
        match self.compile_statement(step) {
            Err(x) => {
                return Err(x);
            },
            Ok(_) => {},
        }
        self.emit(Opcode::Jump(start));
        let here = self.here();
        self.patch(skip, Opcode::JumpIfFalse(here));
        Ok(())
    }

    /// Defines the parameters `params` in the current scope.
    fn define_parameters(&mut self, params: &Vec<Ident>) -> (r: Result<(), CompileError>)
        requires
            old(self).wf(),
            old(self).ranged(),
        ensures
            final(self).after(old(self)),
            final(self).grown(old(self)),
            final(self).unit().instructions == old(self).unit().instructions,
            lowered(final(self).unit(), r) == define_parameters(
                old(self).unit(),
                idents_view(params@),
                0,
            ),
    {
        let mut i: usize = 0;
        while i < params.len()
            invariant
                i <= params.len(),
                self.after(old(self)),
                self.grown(old(self)),
                self.unit().instructions == old(self).unit().instructions,
                define_parameters(old(self).unit(), idents_view(params@), 0) == define_parameters(
                    self.unit(),
                    idents_view(params@),
                    i as int,
                ),
            decreases params.len() - i,
        {
            if !self.has_room() {
                return Err(CompileError::TooManySymbols);
            }
            let _ = self.define(params[i].0.clone());
            i += 1;
        }
        Ok(())
    }

    /// Emits the instructions that read the symbols `frees`.
    fn load_all(&mut self, frees: &Vec<Symbol>)
        requires
            old(self).wf(),
            old(self).ranged(),
        ensures
            final(self).after(old(self)),
            final(self).grown(old(self)),
            final(self).unit() == old(self).unit().load_all(
                crate::symbol::symbol_views(frees@),
                0,
            ),
    {
        let mut i: usize = 0;
        while i < frees.len()
            invariant
                i <= frees.len(),
                self.after(old(self)),
                self.grown(old(self)),
                old(self).unit().load_all(crate::symbol::symbol_views(frees@), 0)
                    == self.unit().load_all(crate::symbol::symbol_views(frees@), i as int),
            decreases frees.len() - i,
        {
            self.load_symbol(&frees[i]);
            i += 1;
        }
    }

    fn compile_function(&mut self, s: &Stmt, name: &Ident, params: &Vec<Ident>, body: &Vec<Stmt>)
        -> (r: Result<(), CompileError>)
        requires
            old(self).wf(),
            old(self).ranged(),
            s.view() == StmtView::Function(name@, idents_view(params@), stmts_view(body@)),
        ensures
            final(self).after(old(self)),
            r is Ok ==> final(self).grown(old(self)),
            lowered(final(self).unit(), r) == lower_stmt(old(self).unit(), s.view()),
        decreases s.view(), 1nat,
    {
        proof {
            reveal(lower_stmt);
            reveal(lower_stmts);
        }
        if !self.has_room() {
            return Err(CompileError::TooManySymbols);
        }
        let own = self.define(name.0.clone());
        self.enter_scope();
        self.define_function_name(name.0.clone());
        match self.define_parameters(params) {
            Err(x) => {
                return Err(x);
            },
            Ok(_) => {},
        }
        match self.compile_statements(body) {
            Err(x) => {
                return Err(x);
            },
            Ok(_) => {},
        }
        let summary = self.scope_summary();
        let function = Object::CompiledFunction {
            start: summary.2,
            len: summary.3,
            num_locals: summary.0,
            num_parameters: params.len(),
        };
        proof {
            assert(self.unit().saved.drop_last() =~= old(self).unit().saved);
        }
        self.leave_scope();
        self.load_all(&summary.1);
        let index = self.add_constant(function);
        self.emit_load_constant(index);
        self.emit(Opcode::Closure(index, summary.1.len()));
        self.store_symbol(&own)
    }
}

} // verus!
