//! Expressions.

use super::{lowered, Compiler};
use crate::ast::{
    arms_view, exprs_view, lemma_arms_index, lemma_arms_len, lemma_exprs_index, lemma_exprs_len,
    lemma_stmts_len, stmts_view, ExprType, ExprView, Literal, Stmt,
};
use crate::lowering::{
    literal_constant, lower_arms, lower_assign, lower_expr, lower_list, lower_stmts,
    operator_instruction, CompileError,
};
use crate::objects::Object;
use crate::opcode::Opcode;
use crate::semantics::is_compound;
use crate::token::TokenKind;
use vstd::prelude::*;

verus! {

fn operator(op: TokenKind) -> (r: Option<Opcode>)
    ensures
        match r {
            Some(o) => Some(o@),
            None => None,
        } == operator_instruction(op),
        r is Some ==> r.unwrap()@.target() is None,
{
    match op {
        TokenKind::Plus | TokenKind::PlusSelf => Some(Opcode::Add),
        TokenKind::Star | TokenKind::StarSelf => Some(Opcode::Multiply),
        TokenKind::Slash | TokenKind::SlashSelf => Some(Opcode::Divide),
        TokenKind::Mod | TokenKind::ModSelf => Some(Opcode::Mod),
        TokenKind::Minus | TokenKind::MinusSelf => Some(Opcode::Minus),
        TokenKind::Greater => Some(Opcode::GreaterThan),
        TokenKind::Less => Some(Opcode::LessThan),
        TokenKind::EqualEqual => Some(Opcode::EqualEqual),
        _ => None,
    }
}

fn compound(op: TokenKind) -> (b: bool)
    ensures
        b == is_compound(op),
{
    op == TokenKind::PlusSelf || op == TokenKind::MinusSelf || op == TokenKind::StarSelf || op
        == TokenKind::SlashSelf || op == TokenKind::ModSelf
}

fn constant_of(l: &Literal) -> (r: Option<Object<'static>>)
    ensures
        match r {
            Some(o) => Some(o.view()),
            None => None,
        } == literal_constant(l.view()),
{
    match l {
        Literal::Number(n) => Some(Object::Number(*n)),
        Literal::String(s) => Some(Object::String(s.clone())),
        Literal::Bool(b) => Some(Object::Boolean(*b)),
        Literal::Nil => Some(Object::Nil),
        _ => None,
    }
}

impl Compiler {
    /// Lowers the assignment of `value` to `target`.
    pub(crate) fn compile_assign(&mut self, target: &ExprType, value: &ExprType) -> (r: Result<
        (),
        CompileError,
    >)
        requires
            old(self).wf(),
            old(self).ranged(),
        ensures
            final(self).after(old(self)),
            r is Ok ==> final(self).grown(old(self)),
            lowered(final(self).unit(), r) == lower_assign(
                old(self).unit(),
                target.view(),
                value.view(),
            ),
        decreases value.view(), 3nat,
    {
        proof {
            reveal(lower_assign);
            reveal(lower_expr);
        }
        match target {
            ExprType::Ident(name) => match self.resolve(&name.0) {
                None => Err(CompileError::UnresolvedSymbol),
                Some(s) => match self.compile_expression(value) {
                    Err(x) => Err(x),
                    Ok(_) => match self.store_symbol(&s) {
                        Err(x) => Err(x),
                        Ok(_) => {
                            self.load_symbol(&s);
                            Ok(())
                        },
                    },
                },
            },
            _ => Err(CompileError::Unsupported),
        }
    }

    /// Lowers the expression `e`.
    pub(crate) fn compile_expression(&mut self, e: &ExprType) -> (r: Result<(), CompileError>)
        requires
            old(self).wf(),
            old(self).ranged(),
        ensures
            final(self).after(old(self)),
            r is Ok ==> final(self).grown(old(self)),
            lowered(final(self).unit(), r) == lower_expr(old(self).unit(), e.view()),
        decreases e.view(), 2nat,
    {
        match e {
            ExprType::GroupingExpr(inner) => {
                proof {
                    reveal(lower_expr);
                }
                self.compile_expression(inner)
            },
            ExprType::InfixExpr(left, op, right) => {
                if op.kind() == TokenKind::Equal {
                    proof {
                        reveal(lower_expr);
                        reveal(lower_assign);
                    }
                    self.compile_assign(left, right)
                } else if compound(op.kind()) {
                    self.compile_compound(e, left, op.kind(), right)
                } else {
                    proof {
                        reveal(lower_expr);
                    }
                    match self.compile_expression(left) {
                        Err(x) => Err(x),
                        Ok(_) => match self.compile_expression(right) {
                            Err(x) => Err(x),
                            Ok(_) => match operator(op.kind()) {
                                Some(o) => {
                                    self.emit(o);
                                    Ok(())
                                },
                                None => Err(CompileError::Unsupported),
                            },
                        },
                    }
                }
            },
            ExprType::PrintExpr(exprs) => {
                proof {
                    reveal(lower_expr);
                    reveal(lower_list);
                    lemma_exprs_len(exprs@);
                }
                match self.compile_list(exprs) {
                    Err(x) => Err(x),
                    Ok(_) => {
                        self.emit(Opcode::Print(exprs.len()));
                        Ok(())
                    },
                }
            },
            ExprType::PrefixExpr(op, right) => {
                proof {
                    reveal(lower_expr);
                }
                match self.compile_expression(right) {
                    Err(x) => Err(x),
                    Ok(_) => {
                        if op.kind() == TokenKind::Minus {
                            self.emit(Opcode::Nagetive);
                            Ok(())
                        } else {
                            Err(CompileError::Unsupported)
                        }
                    },
                }
            },
            ExprType::Literal(l) => {
                proof {
                    reveal(lower_expr);
                }
                match constant_of(l) {
                    Some(v) => {
                        let index = self.add_constant(v);
                        self.emit_load_constant(index);
                        Ok(())
                    },
                    None => Err(CompileError::Unsupported),
                }
            },
            ExprType::Ident(name) => {
                proof {
                    reveal(lower_expr);
                }
                match self.resolve(&name.0) {
                    None => Err(CompileError::UnresolvedSymbol),
                    Some(s) => {
                        self.load_symbol(&s);
                        Ok(())
                    },
                }
            },
            ExprType::Call { callee, args } => self.compile_call(e, callee, args),
            ExprType::If { condition, elseif, then_branch, else_branch } => self.compile_if(
                e,
                condition,
                elseif,
                then_branch,
                else_branch,
            ),
            _ => {
                proof {
                    reveal(lower_expr);
                }
                Err(CompileError::Unsupported)
            },
        }
    }

    fn compile_compound(
        &mut self,
        e: &ExprType,
        left: &ExprType,
        op: TokenKind,
        right: &ExprType,
    ) -> (r: Result<(), CompileError>)
        requires
            old(self).wf(),
            old(self).ranged(),
            e.view() is InfixExpr,
            e.view()->InfixExpr_0 == Box::new(left.view()),
            e.view()->InfixExpr_1.kind == op,
            e.view()->InfixExpr_2 == Box::new(right.view()),
            is_compound(op),
        ensures
            final(self).after(old(self)),
            r is Ok ==> final(self).grown(old(self)),
            lowered(final(self).unit(), r) == lower_expr(old(self).unit(), e.view()),
        decreases e.view(), 1nat,
    {
        proof {
            reveal(lower_expr);
        }
        match left {
            ExprType::Ident(name) => match self.compile_expression(left) {
                Err(x) => Err(x),
                Ok(_) => match self.compile_expression(right) {
                    Err(x) => Err(x),
                    Ok(_) => match self.resolve(&name.0) {
                        None => Err(CompileError::UnresolvedSymbol),
                        Some(s) => match operator(op) {
                            Some(o) => {
                                self.emit(o);
                                self.store_symbol(&s)
                            },
                            None => Err(CompileError::Unsupported),
                        },
                    },
                },
            },
            _ => Err(CompileError::Unsupported),
        }
    }

    fn compile_call(&mut self, e: &ExprType, callee: &ExprType, args: &Vec<ExprType>) -> (r: Result<
        (),
        CompileError,
    >)
        requires
            old(self).wf(),
            old(self).ranged(),
            e.view() == (ExprView::Call {
                callee: Box::new(callee.view()),
                args: exprs_view(args@),
            }),
        ensures
            final(self).after(old(self)),
            r is Ok ==> final(self).grown(old(self)),
            lowered(final(self).unit(), r) == lower_expr(old(self).unit(), e.view()),
        decreases e.view(), 1nat,
    {
        proof {
            reveal(lower_expr);
            reveal(lower_list);
            lemma_exprs_len(args@);
        }
        match callee {
            ExprType::Ident(name) => {
                match self.builtins.get_index(name.0.as_str()) {
                    Some(i) => {
                        self.emit(Opcode::GetBuiltin(i));
                    },
                    None => match self.resolve(&name.0) {
                        None => {
                            return Err(CompileError::UnresolvedSymbol);
                        },
                        Some(s) => {
                            self.load_symbol(&s);
                        },
                    },
                }
                match self.compile_list(args) {
                    Err(x) => Err(x),
                    Ok(_) => {
                        self.emit(Opcode::Call(args.len()));
                        Ok(())
                    },
                }
            },
            _ => Err(CompileError::Unsupported),
        }
    }

    fn compile_if(
        &mut self,
        e: &ExprType,
        condition: &ExprType,
        elseif: &Vec<(Box<ExprType>, Vec<Stmt>)>,
        then_branch: &Vec<Stmt>,
        else_branch: &Vec<Stmt>,
    ) -> (r: Result<(), CompileError>)
        requires
            old(self).wf(),
            old(self).ranged(),
            e.view() == (ExprView::If {
                condition: Box::new(condition.view()),
                elseif: arms_view(elseif@),
                then_branch: stmts_view(then_branch@),
                else_branch: stmts_view(else_branch@),
            }),
        ensures
            final(self).after(old(self)),
            r is Ok ==> final(self).grown(old(self)),
            lowered(final(self).unit(), r) == lower_expr(old(self).unit(), e.view()),
        decreases e.view(), 1nat,
    {
        proof {
            reveal(lower_expr);
            reveal(lower_stmts);
            reveal(lower_arms);
            lemma_arms_len(elseif@);
            lemma_stmts_len(else_branch@);
        }
        match self.compile_expression(condition) {
            Err(x) => {
                return Err(x);
            },
            Ok(_) => {},
        }
        let skip = self.emit_return_position(Opcode::JumpIfFalse(0));
        match self.compile_statements(then_branch) {
            Err(x) => {
                return Err(x);
            },
            Ok(_) => {},
        }
        let more = elseif.len() > 0 || else_branch.len() > 0;
        let mut ends: Vec<usize> = Vec::new();
        if more {
            let at = self.emit_return_position(Opcode::Jump(0));
            ends.push(at);
            assert(ends@ =~= seq![at]);
        }
        let here = self.here();
        self.patch(skip, Opcode::JumpIfFalse(here));
        let ends = match self.compile_arms(elseif, ends) {
            (Err(x), _) => {
                return Err(x);
            },
            (Ok(_), ends) => ends,
        };
        match self.compile_statements(else_branch) {
            Err(x) => {
                return Err(x);
            },
            Ok(_) => {},
        }
        let target = self.here();
        self.patch_all(&ends, target);
        Ok(())
    }

    /// Patches the jumps at the positions `at` to jump to `target`.
    fn patch_all(&mut self, at: &Vec<usize>, target: usize)
        requires
            old(self).wf(),
            old(self).ranged(),
            target <= old(self).unit().instructions.len(),
        ensures
            final(self).after(old(self)),
            final(self).grown(old(self)),
            final(self).unit() == old(self).unit().patch_all(at@, 0, target),
    {
        let mut i: usize = 0;
        while i < at.len()
            invariant
                i <= at.len(),
                self.after(old(self)),
                self.grown(old(self)),
                target <= self.unit().instructions.len(),
                old(self).unit().patch_all(at@, 0, target) == self.unit().patch_all(
                    at@,
                    i as int,
                    target,
                ),
            decreases at.len() - i,
        {
            self.patch(at[i], Opcode::Jump(target));
            i += 1;
        }
    }

    /// Lowers the expressions `es`, one after the other.
    pub(crate) fn compile_list(&mut self, es: &Vec<ExprType>) -> (r: Result<(), CompileError>)
        requires
            old(self).wf(),
            old(self).ranged(),
        ensures
            final(self).after(old(self)),
            r is Ok ==> final(self).grown(old(self)),
            lowered(final(self).unit(), r) == lower_list(old(self).unit(), exprs_view(es@), 0),
        decreases exprs_view(es@), es.len(),
    {
        let mut i: usize = 0;
        while i < es.len()
            invariant
                i <= es.len(),
                self.after(old(self)),
                self.grown(old(self)),
                lower_list(old(self).unit(), exprs_view(es@), 0) == lower_list(
                    self.unit(),
                    exprs_view(es@),
                    i as int,
                ),
            decreases es.len() - i,
        {
            proof {
                reveal(lower_list);
                reveal(lower_expr);
                lemma_exprs_index(es@, i as int);
            }
            match self.compile_expression(&es[i]) {
                Err(x) => {
                    return Err(x);
                },
                Ok(_) => {},
            }
            i += 1;
        }
        proof {
            reveal(lower_list);
            reveal(lower_expr);
            lemma_exprs_len(es@);
        }
        Ok(())
    }

    /// Lowers the `else if` arms `arms`. Gives the positions of the jumps
    /// to the end of the chain: those in `ends`, and those of the arms.
    fn compile_arms(&mut self, arms: &Vec<(Box<ExprType>, Vec<Stmt>)>, known: Vec<usize>) -> (r: (
        Result<(), CompileError>,
        Vec<usize>,
    ))
        requires
            old(self).wf(),
            old(self).ranged(),
        ensures
            final(self).after(old(self)),
            r.0 is Ok ==> final(self).grown(old(self)),
            (lowered(final(self).unit(), r.0), r.1@) == lower_arms(
                old(self).unit(),
                arms_view(arms@),
                0,
                known@,
            ),
        decreases arms_view(arms@), arms.len(),
    {
        let ghost first = known@;
        let mut ends = known;
        let mut i: usize = 0;
        while i < arms.len()
            invariant
                i <= arms.len(),
                self.after(old(self)),
                self.grown(old(self)),
                first == known@,
                lower_arms(old(self).unit(), arms_view(arms@), 0, first) == lower_arms(
                    self.unit(),
                    arms_view(arms@),
                    i as int,
                    ends@,
                ),
            decreases arms.len() - i,
        {
            proof {
                reveal(lower_arms);
                reveal(lower_expr);
                reveal(lower_stmts);
                lemma_arms_index(arms@, i as int);
            }
            match self.compile_expression(&arms[i].0) {
                Err(x) => {
                    return (Err(x), ends);
                },
                Ok(_) => {},
            }
            let skip = self.emit_return_position(Opcode::JumpIfFalse(0));
            match self.compile_statements(&arms[i].1) {
                Err(x) => {
                    return (Err(x), ends);
                },
                Ok(_) => {},
            }
            let at = self.emit_return_position(Opcode::Jump(0));
            ends.push(at);
            let here = self.here();
            self.patch(skip, Opcode::JumpIfFalse(here));
            i += 1;
        }
        proof {
            reveal(lower_arms);
            reveal(lower_expr);
            reveal(lower_stmts);
            lemma_arms_len(arms@);
        }
        (Ok(()), ends)
    }
}

} // verus!
