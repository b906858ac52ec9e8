//! Statements.

use super::{flow_outcome, Evaluator};
use crate::ast::{lemma_stmts_index, lemma_stmts_len, stmts_view, ExprType, Stmt, StmtView};
use crate::heap::is_same_key;
use crate::number::{NumberReply, NumberRequest};
use crate::objects::Object;
use crate::semantics::{
    assign, eval, for_in_loop, for_loop, run, run_list, switch_arms, while_loop, RuntimeError,
};
use vstd::prelude::*;

verus! {

impl<'p, K: Fn(NumberRequest) -> NumberReply> Evaluator<'p, K> {
    /// Runs the statements `ss`, one after the other, up to the first that
    /// returns a value.
    pub(crate) fn run_list(&mut self, ss: &'p Vec<Stmt>) -> (r: Result<
        Option<Object<'p>>,
        RuntimeError,
    >)
        requires
            old(self).wf(),
        ensures
            final(self).after(old(self)),
            flow_outcome(final(self).world(), r) == run_list(
                old(self).world(),
                stmts_view(ss@),
                0,
                old(self).rules(),
            ),
        decreases old(self).world().fuel, stmts_view(ss@), ss.len(),
    {
        let mut i: usize = 0;
        while i < ss.len()
            invariant
                i <= ss.len(),
                old(self).wf(),
                self.after(old(self)),
                run_list(old(self).world(), stmts_view(ss@), 0, old(self).rules()) == run_list(
                    self.world(),
                    stmts_view(ss@),
                    i as int,
                    old(self).rules(),
                ),
            decreases ss.len() - i,
        {
            proof {
                reveal(run_list);
                reveal(run);
                lemma_stmts_index(ss@, i as int);
            }
            match self.run(&ss[i]) {
                Err(x) => {
                    return Err(x);
                },
                Ok(Some(v)) => {
                    return Ok(Some(v));
                },
                Ok(None) => {},
            }
            i += 1;
        }
        proof {
            reveal(run_list);
            reveal(run);
            lemma_stmts_len(ss@);
        }
        Ok(None)
    }

    /// Runs the statement `s`.
    pub(crate) fn run(&mut self, s: &'p Stmt) -> (r: Result<Option<Object<'p>>, RuntimeError>)
        requires
            old(self).wf(),
        ensures
            final(self).after(old(self)),
            flow_outcome(final(self).world(), r) == run(
                old(self).world(),
                s.view(),
                old(self).rules(),
            ),
        decreases old(self).world().fuel, s.view(), 3nat,
    {
        match s {
            Stmt::Blank => {
                proof {
                    reveal(run);
                }
                Ok(None)
            },
            Stmt::Import(_) => {
                proof {
                    reveal(run);
                }
                Ok(None)
            },
            Stmt::Var(name, e) => {
                proof {
                    reveal(run);
                    reveal(eval);
                }
                match self.eval(e) {
                    Err(x) => Err(x),
                    Ok(v) => {
                        self.define(name.0.clone(), v);
                        Ok(None)
                    },
                }
            },
            Stmt::Expr(e) => {
                proof {
                    reveal(run);
                    reveal(eval);
                }
                match self.eval(e) {
                    Err(x) => Err(x),
                    Ok(Object::ReturnValue(inner)) => Ok(Some(*inner)),
                    Ok(_) => Ok(None),
                }
            },
            Stmt::Block(body) => {
                proof {
                    reveal(run);
                    reveal(run_list);
                }
                self.enter();
                match self.run_list(body) {
                    Err(x) => Err(x),
                    Ok(flow) => {
                        self.leave();
                        Ok(flow)
                    },
                }
            },
            Stmt::Return(e) => self.run_return(s, e),
            Stmt::Function(name, params, body) => {
                proof {
                    reveal(run);
                }
                self.define(name.0.clone(), Object::Function(params, body));
                Ok(None)
            },
            Stmt::ClassStmt { name, properties } => {
                proof {
                    reveal(run);
                }
                self.assign_name(name.0.clone(), Object::Class(name.0.clone(), properties));
                Ok(None)
            },
            Stmt::Switch(e, arms) => {
                proof {
                    reveal(run);
                    reveal(eval);
                    reveal(switch_arms);
                }
                match self.eval(e) {
                    Err(x) => Err(x),
                    Ok(v) => self.switch_arms(&v, arms),
                }
            },
            Stmt::Case(_, _) => {
                proof {
                    reveal(run);
                }
                Err(RuntimeError::Unsupported)
            },
            Stmt::Default(_) => {
                proof {
                    reveal(run);
                }
                Err(RuntimeError::Unsupported)
            },
            Stmt::While(condition, body) => {
                proof {
                    reveal(run);
                    reveal(while_loop);
                }
                self.while_loop(condition, body)
            },
            Stmt::For { init, conditions, step, block } => {
                proof {
                    reveal(run);
                    reveal(for_loop);
                }
                match self.run(init) {
                    Err(x) => Err(x),
                    Ok(_) => self.for_loop(conditions, step, block),
                }
            },
            Stmt::ForIn { var, iter, block } => self.run_for_in(s, var, iter, block),
            Stmt::Assert { condition, message } => self.run_assert(s, condition, message),
            Stmt::Assign(target, value) => {
                proof {
                    reveal(run);
                    reveal(assign);
                }
                if !self.burn() {
                    return Err(RuntimeError::StepLimit);
                }
                match self.assign(
                    target,
                    value,
                    Ghost(crate::token::TokenView::fixed(crate::token::TokenKind::Equal)),
                ) {
                    Err(x) => Err(x),
                    Ok(_) => Ok(None),
                }
            },
        }
    }

    fn run_return(&mut self, s: &'p Stmt, e: &'p ExprType) -> (r: Result<
        Option<Object<'p>>,
        RuntimeError,
    >)
        requires
            old(self).wf(),
            s.view() == StmtView::Return(e.view()),
        ensures
            final(self).after(old(self)),
            flow_outcome(final(self).world(), r) == run(
                old(self).world(),
                s.view(),
                old(self).rules(),
            ),
        decreases old(self).world().fuel, s.view(), 2nat,
    {
        proof {
            reveal(run);
            reveal(eval);
        }
        match self.eval(e) {
            Err(x) => Err(x),
            Ok(v) => {
                if self.verbose() && self.depth() == 0 {
                    self.write_value(&v);
                    self.write("\n");
                }
                Ok(Some(v))
            },
        }
    }

    fn run_for_in(
        &mut self,
        s: &'p Stmt,
        var: &'p Stmt,
        iter: &'p ExprType,
        block: &'p Vec<Stmt>,
    ) -> (r: Result<Option<Object<'p>>, RuntimeError>)
        requires
            old(self).wf(),
            s.view() == (StmtView::ForIn {
                var: Box::new(var.view()),
                iter: Box::new(iter.view()),
                block: stmts_view(block@),
            }),
        ensures
            final(self).after(old(self)),
            flow_outcome(final(self).world(), r) == run(
                old(self).world(),
                s.view(),
                old(self).rules(),
            ),
        decreases old(self).world().fuel, s.view(), 2nat,
    {
        proof {
            reveal(run);
            reveal(eval);
            reveal(for_in_loop);
        }
        match var {
            Stmt::Var(name, _) => {
                match self.eval(iter) {
                    Err(x) => Err(x),
                    Ok(Object::Hash(h)) => {
                        let keys = self.hash_entries(h);
                        self.for_in_loop(name, &keys, block)
                    },
                    Ok(_) => Ok(None),
                }
            },
            _ => Err(RuntimeError::Unsupported),
        }
    }

    fn run_assert(&mut self, s: &'p Stmt, condition: &'p ExprType, message: &'p ExprType) -> (r:
        Result<Option<Object<'p>>, RuntimeError>)
        requires
            old(self).wf(),
            s.view() == (StmtView::Assert {
                condition: Box::new(condition.view()),
                message: Box::new(message.view()),
            }),
        ensures
            final(self).after(old(self)),
            flow_outcome(final(self).world(), r) == run(
                old(self).world(),
                s.view(),
                old(self).rules(),
            ),
        decreases old(self).world().fuel, s.view(), 2nat,
    {
        proof {
            reveal(run);
            reveal(eval);
        }
        match self.eval(condition) {
            Err(x) => Err(x),
            Ok(Object::Boolean(false)) => match self.eval(message) {
                Err(x) => Err(x),
                Ok(m) => {
                    self.write_value(&m);
                    self.write("\n");
                    Err(RuntimeError::AssertionFailed)
                },
            },
            Ok(_) => Ok(None),
        }
    }

    /// The arms of a switch on `subject`.
    pub(crate) fn switch_arms(&mut self, subject: &Object<'p>, arms: &'p Vec<Stmt>) -> (r: Result<
        Option<Object<'p>>,
        RuntimeError,
    >)
        requires
            old(self).wf(),
        ensures
            final(self).after(old(self)),
            flow_outcome(final(self).world(), r) == switch_arms(
                old(self).world(),
                subject.view(),
                stmts_view(arms@),
                0,
                old(self).rules(),
            ),
        decreases old(self).world().fuel, stmts_view(arms@), arms.len(),
    {
        let mut i: usize = 0;
        while i < arms.len()
            invariant
                i <= arms.len(),
                old(self).wf(),
                self.after(old(self)),
                switch_arms(
                    old(self).world(),
                    subject.view(),
                    stmts_view(arms@),
                    0,
                    old(self).rules(),
                ) == switch_arms(
                    self.world(),
                    subject.view(),
                    stmts_view(arms@),
                    i as int,
                    old(self).rules(),
                ),
            decreases arms.len() - i,
        {
            proof {
                reveal(switch_arms);
                reveal(eval);
                reveal(run_list);
                lemma_stmts_index(arms@, i as int);
            }
            match &arms[i] {
                Stmt::Case(e, body) => {
                    match self.eval(e) {
                        Err(x) => {
                            return Err(x);
                        },
                        Ok(v) => {
                            if is_same_key(&v, subject) {
                                return self.run_list(body);
                            }
                        },
                    }
                },
                Stmt::Default(body) => {
                    return self.run_list(body);
                },
                _ => {
                    return Err(RuntimeError::Unsupported);
                },
            }
            i += 1;
        }
        proof {
            reveal(switch_arms);
            reveal(eval);
            reveal(run_list);
            lemma_stmts_len(arms@);
        }
        Ok(None)
    }
}

} // verus!
