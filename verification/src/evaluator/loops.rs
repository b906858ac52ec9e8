//! Loops.

use super::{flow_outcome, Evaluator};
use crate::ast::{stmts_view, ExprType, Ident, Stmt};
use crate::heap::entries;
use crate::number::{NumberReply, NumberRequest};
use crate::objects::Object;
use crate::semantics::{eval, for_in_loop, for_loop, run, run_list, while_loop, RuntimeError};
use vstd::prelude::*;

verus! {

impl<'p, K: Fn(NumberRequest) -> NumberReply> Evaluator<'p, K> {
    /// A `while` loop.
    pub(crate) fn while_loop(&mut self, condition: &'p ExprType, body: &'p Vec<Stmt>) -> (r: Result<
        Option<Object<'p>>,
        RuntimeError,
    >)
        requires
            old(self).wf(),
        ensures
            final(self).after(old(self)),
            flow_outcome(final(self).world(), r) == while_loop(
                old(self).world(),
                condition.view(),
                stmts_view(body@),
                old(self).rules(),
            ),
        decreases old(self).world().fuel, stmts_view(body@), 1nat,
    {
        loop
            invariant
                old(self).wf(),
                self.after(old(self)),
                while_loop(
                    old(self).world(),
                    condition.view(),
                    stmts_view(body@),
                    old(self).rules(),
                ) == while_loop(
                    self.world(),
                    condition.view(),
                    stmts_view(body@),
                    old(self).rules(),
                ),
            decreases self.world().fuel,
        {
            proof {
                reveal(while_loop);
                reveal(eval);
                reveal(run_list);
            }
            if !self.burn() {
                return Err(RuntimeError::StepLimit);
            }
            match self.eval(condition) {
                Err(x) => {
                    return Err(x);
                },
                Ok(Object::Boolean(true)) => {
                    self.enter();
                    match self.run_list(body) {
                        Err(x) => {
                            return Err(x);
                        },
                        Ok(Some(v)) => {
                            self.leave();
                            return Ok(Some(v));
                        },
                        Ok(None) => {
                            self.leave();
                        },
                    }
                },
                Ok(Object::Boolean(false)) => {
                    return Ok(None);
                },
                Ok(_) => {
                    return Err(RuntimeError::TypeMismatch);
                },
            }
        }
    }

    /// A `for` loop after its initializer.
    pub(crate) fn for_loop(
        &mut self,
        condition: &'p ExprType,
        step: &'p Stmt,
        body: &'p Vec<Stmt>,
    ) -> (r: Result<Option<Object<'p>>, RuntimeError>)
        requires
            old(self).wf(),
        ensures
            final(self).after(old(self)),
            flow_outcome(final(self).world(), r) == for_loop(
                old(self).world(),
                condition.view(),
                step.view(),
                stmts_view(body@),
                old(self).rules(),
            ),
        decreases old(self).world().fuel, stmts_view(body@), 1nat,
    {
        loop
            invariant
                old(self).wf(),
                self.after(old(self)),
                for_loop(
                    old(self).world(),
                    condition.view(),
                    step.view(),
                    stmts_view(body@),
                    old(self).rules(),
                ) == for_loop(
                    self.world(),
                    condition.view(),
                    step.view(),
                    stmts_view(body@),
                    old(self).rules(),
                ),
            decreases self.world().fuel,
        {
            proof {
                reveal(for_loop);
                reveal(eval);
                reveal(run_list);
                reveal(run);
            }
            if !self.burn() {
                return Err(RuntimeError::StepLimit);
            }
            match self.eval(condition) {
                Err(x) => {
                    return Err(x);
                },
                Ok(Object::Boolean(true)) => {
                    self.enter();
                    match self.run_list(body) {
                        Err(x) => {
                            return Err(x);
                        },
                        Ok(Some(v)) => {
                            self.leave();
                            return Ok(Some(v));
                        },
                        Ok(None) => {
                            self.leave();
                            match self.run(step) {
                                Err(x) => {
                                    return Err(x);
                                },
                                Ok(_) => {},
                            }
                        },
                    }
                },
                Ok(Object::Boolean(false)) => {
                    return Ok(None);
                },
                Ok(_) => {
                    return Err(RuntimeError::TypeMismatch);
                },
            }
        }
    }

    /// A `for ... in` loop over the keys of `keys`.
    pub(crate) fn for_in_loop(
        &mut self,
        name: &'p Ident,
        keys: &Vec<(Object<'p>, Object<'p>)>,
        body: &'p Vec<Stmt>,
    ) -> (r: Result<Option<Object<'p>>, RuntimeError>)
        requires
            old(self).wf(),
        ensures
            final(self).after(old(self)),
            flow_outcome(final(self).world(), r) == for_in_loop(
                old(self).world(),
                name@,
                entries(keys@),
                0,
                stmts_view(body@),
                old(self).rules(),
            ),
        decreases old(self).world().fuel, stmts_view(body@), 1nat,
    {
        let mut i: usize = 0;
        while i < keys.len()
            invariant
                i <= keys.len(),
                old(self).wf(),
                self.after(old(self)),
                i > 0 ==> self.world().fuel < old(self).world().fuel,
                for_in_loop(
                    old(self).world(),
                    name@,
                    entries(keys@),
                    0,
                    stmts_view(body@),
                    old(self).rules(),
                ) == for_in_loop(
                    self.world(),
                    name@,
                    entries(keys@),
                    i as int,
                    stmts_view(body@),
                    old(self).rules(),
                ),
            decreases keys.len() - i,
        {
            proof {
                reveal(for_in_loop);
                reveal(run_list);
            }
            if !self.burn() {
                return Err(RuntimeError::StepLimit);
            }
            self.enter();
            self.define(name.0.clone(), keys[i].0.duplicate());
            match self.run_list(body) {
                Err(x) => {
                    return Err(x);
                },
                Ok(Some(v)) => {
                    self.leave();
                    return Ok(Some(v));
                },
                Ok(None) => {
                    self.leave();
                },
            }
            i += 1;
        }
        proof {
            reveal(for_in_loop);
            reveal(run_list);
        }
        Ok(None)
    }
}

} // verus!
