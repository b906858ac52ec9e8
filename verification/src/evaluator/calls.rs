//! Calls of functions and methods, and the making of instances.

use super::{unit_outcome, value_outcome, Evaluator};
use crate::ast::{
    exprs_view, idents_view, lemma_stmts_index, lemma_stmts_len, stmts_view, ExprType, Ident, Stmt,
};
use crate::number::{NumberReply, NumberRequest};
use crate::objects::Object;
use crate::semantics::{call, eval, eval_list, init_members, run_list, RuntimeError};
use vstd::prelude::*;

verus! {

impl<'p, K: Fn(NumberRequest) -> NumberReply> Evaluator<'p, K> {
    /// A call of the function with the parameters `params` and the body
    /// `body` on the arguments `args`.
    pub(crate) fn call(
        &mut self,
        params: &'p Vec<Ident>,
        body: &'p Vec<Stmt>,
        args: &'p Vec<ExprType>,
        receiver: Option<Object<'p>>,
    ) -> (r: Result<Object<'p>, RuntimeError>)
        requires
            old(self).wf(),
        ensures
            final(self).after(old(self)),
            value_outcome(final(self).world(), r) == call(
                old(self).world(),
                idents_view(params@),
                stmts_view(body@),
                exprs_view(args@),
                match receiver {
                    Some(o) => Some(o.view()),
                    None => None,
                },
                old(self).rules(),
            ),
        decreases old(self).world().fuel, exprs_view(args@), 0nat,
    {
        proof {
            reveal(call);
            reveal(eval_list);
            reveal(run_list);
        }
        if !self.begin_call(receiver) {
            return Err(RuntimeError::StepLimit);
        }
        let values = match self.eval_list(args) {
            Err(x) => {
                return Err(x);
            },
            Ok(vs) => vs,
        };
        self.bind_parameters(params, &values);
        match self.run_list(body) {
            Err(x) => Err(x),
            Ok(flow) => {
                self.end_call();
                match flow {
                    Some(v) => Ok(v),
                    None => Ok(Object::Nil),
                }
            },
        }
    }

    /// Enters the members `members` of a class into the instance at `id`.
    pub(crate) fn init_members(&mut self, members: &'p Vec<Stmt>, id: usize) -> (r: Result<
        (),
        RuntimeError,
    >)
        requires
            old(self).wf(),
        ensures
            final(self).after(old(self)),
            unit_outcome(final(self).world(), r) == init_members(
                old(self).world(),
                stmts_view(members@),
                0,
                id,
                old(self).rules(),
            ),
        decreases old(self).world().fuel, stmts_view(members@), members.len(),
    {
        let mut i: usize = 0;
        while i < members.len()
            invariant
                i <= members.len(),
                old(self).wf(),
                self.after(old(self)),
                init_members(old(self).world(), stmts_view(members@), 0, id, old(self).rules())
                    == init_members(
                    self.world(),
                    stmts_view(members@),
                    i as int,
                    id,
                    old(self).rules(),
                ),
            decreases members.len() - i,
        {
            proof {
                reveal(init_members);
                reveal(eval);
                lemma_stmts_index(members@, i as int);
            }
            match &members[i] {
                Stmt::Var(name, e) => {
                    match self.eval(e) {
                        Err(x) => {
                            return Err(x);
                        },
                        Ok(v) => {
                            self.field_put(id, name.0.clone(), v);
                        },
                    }
                },
                Stmt::Function(name, params, body) => {
                    self.method_put(id, name.0.clone(), Object::Function(params, body));
                },
                _ => {
                    return Err(RuntimeError::Unsupported);
                },
            }
            i += 1;
        }
        proof {
            reveal(init_members);
            reveal(eval);
            lemma_stmts_len(members@);
        }
        Ok(())
    }
}

} // verus!
