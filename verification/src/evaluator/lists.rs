//! Lists of expressions: arguments, the elements of an array, the pairs
//! of a hash, the operands of `print`, the arms of an `if`.

use super::{unit_outcome, values_outcome, Evaluator};
use crate::ast::{
    arms_view, exprs_view, lemma_arms_index, lemma_arms_len, lemma_exprs_index, lemma_exprs_len,
    lemma_pairs_index, lemma_pairs_len, pairs_view, ExprType, Stmt,
};
use crate::number::{NumberReply, NumberRequest};
use crate::objects::{lemma_values_push, values, Object};
use crate::semantics::{
    else_ifs, eval, eval_entries, eval_list, print_items, run_list, Outcome, RuntimeError,
};
use vstd::prelude::*;

verus! {

impl<'p, K: Fn(NumberRequest) -> NumberReply> Evaluator<'p, K> {
    /// The values of the expressions `es`, in order.
    pub(crate) fn eval_list(&mut self, es: &'p Vec<ExprType>) -> (r: Result<
        Vec<Object<'p>>,
        RuntimeError,
    >)
        requires
            old(self).wf(),
        ensures
            final(self).after(old(self)),
            values_outcome(final(self).world(), r) == eval_list(
                old(self).world(),
                exprs_view(es@),
                0,
                Seq::empty(),
                old(self).rules(),
            ),
        decreases old(self).world().fuel, exprs_view(es@), es.len(),
    {
        let mut acc: Vec<Object<'p>> = Vec::new();
        let mut i: usize = 0;
        assert(values(acc@) =~= Seq::empty());
        while i < es.len()
            invariant
                i <= es.len(),
                old(self).wf(),
                self.after(old(self)),
                eval_list(
                    old(self).world(),
                    exprs_view(es@),
                    0,
                    Seq::empty(),
                    old(self).rules(),
                ) == eval_list(
                    self.world(),
                    exprs_view(es@),
                    i as int,
                    values(acc@),
                    old(self).rules(),
                ),
            decreases es.len() - i,
        {
            proof {
                reveal(eval_list);
                reveal(eval);
                lemma_exprs_index(es@, i as int);
            }
            match self.eval(&es[i]) {
                Err(x) => {
                    return Err(x);
                },
                Ok(v) => {
                    proof {
                        lemma_values_push(acc@, v);
                    }
                    acc.push(v);
                },
            }
            i += 1;
        }
        proof {
            reveal(eval_list);
            reveal(eval);
            lemma_exprs_len(es@);
        }
        Ok(acc)
    }

    /// Evaluates the expressions `es` and writes each as it is evaluated.
    pub(crate) fn print_items(&mut self, es: &'p Vec<ExprType>) -> (r: Result<(), RuntimeError>)
        requires
            old(self).wf(),
        ensures
            final(self).after(old(self)),
            unit_outcome(final(self).world(), r) == print_items(
                old(self).world(),
                exprs_view(es@),
                0,
                old(self).rules(),
            ),
        decreases old(self).world().fuel, exprs_view(es@), es.len(),
    {
        let mut i: usize = 0;
        while i < es.len()
            invariant
                i <= es.len(),
                old(self).wf(),
                self.after(old(self)),
                print_items(old(self).world(), exprs_view(es@), 0, old(self).rules())
                    == print_items(self.world(), exprs_view(es@), i as int, old(self).rules()),
            decreases es.len() - i,
        {
            proof {
                reveal(print_items);
                reveal(eval);
                lemma_exprs_index(es@, i as int);
            }
            match self.eval(&es[i]) {
                Err(x) => {
                    return Err(x);
                },
                Ok(v) => {
                    self.write_value(&v);
                },
            }
            i += 1;
        }
        proof {
            reveal(print_items);
            reveal(eval);
            lemma_exprs_len(es@);
        }
        Ok(())
    }

    /// Evaluates the pairs `pairs` and enters each into the hash at `h`.
    pub(crate) fn eval_entries(&mut self, pairs: &'p Vec<(ExprType, ExprType)>, h: usize) -> (r:
        Result<(), RuntimeError>)
        requires
            old(self).wf(),
        ensures
            final(self).after(old(self)),
            unit_outcome(final(self).world(), r) == eval_entries(
                old(self).world(),
                pairs_view(pairs@),
                0,
                h,
                old(self).rules(),
            ),
        decreases old(self).world().fuel, pairs_view(pairs@), pairs.len(),
    {
        let mut i: usize = 0;
        while i < pairs.len()
            invariant
                i <= pairs.len(),
                old(self).wf(),
                self.after(old(self)),
                eval_entries(old(self).world(), pairs_view(pairs@), 0, h, old(self).rules())
                    == eval_entries(
                    self.world(),
                    pairs_view(pairs@),
                    i as int,
                    h,
                    old(self).rules(),
                ),
            decreases pairs.len() - i,
        {
            proof {
                reveal(eval_entries);
                reveal(eval);
                lemma_pairs_index(pairs@, i as int);
            }
            let key = match self.eval(&pairs[i].0) {
                Err(x) => {
                    return Err(x);
                },
                Ok(k) => k,
            };
            let value = match self.eval(&pairs[i].1) {
                Err(x) => {
                    return Err(x);
                },
                Ok(v) => v,
            };
            self.hash_put(h, key, value);
            i += 1;
        }
        proof {
            reveal(eval_entries);
            reveal(eval);
            lemma_pairs_len(pairs@);
        }
        Ok(())
    }

    /// The `else if` arms `arms`: the flow of the first whose condition is
    /// true, if there is one.
    pub(crate) fn else_ifs(&mut self, arms: &'p Vec<(Box<ExprType>, Vec<Stmt>)>) -> (r: Result<
        Option<Option<Object<'p>>>,
        RuntimeError,
    >)
        requires
            old(self).wf(),
        ensures
            final(self).after(old(self)),
            (Outcome {
                world: final(self).world(),
                result: match r {
                    Ok(Some(Some(o))) => Ok(Some(Some(o.view()))),
                    Ok(Some(None)) => Ok(Some(None)),
                    Ok(None) => Ok(None),
                    Err(x) => Err(x),
                },
            }) == else_ifs(old(self).world(), arms_view(arms@), 0, old(self).rules()),
        decreases old(self).world().fuel, arms_view(arms@), arms.len(),
    {
        let mut i: usize = 0;
        while i < arms.len()
            invariant
                i <= arms.len(),
                old(self).wf(),
                self.after(old(self)),
                else_ifs(old(self).world(), arms_view(arms@), 0, old(self).rules()) == else_ifs(
                    self.world(),
                    arms_view(arms@),
                    i as int,
                    old(self).rules(),
                ),
            decreases arms.len() - i,
        {
            proof {
                reveal(else_ifs);
                reveal(eval);
                reveal(run_list);
                lemma_arms_index(arms@, i as int);
            }
            match self.eval(&arms[i].0) {
                Err(x) => {
                    return Err(x);
                },
                Ok(Object::Boolean(true)) => {
                    return match self.run_list(&arms[i].1) {
                        Ok(flow) => Ok(Some(flow)),
                        Err(x) => Err(x),
                    };
                },
                Ok(_) => {},
            }
            i += 1;
        }
        proof {
            reveal(else_ifs);
            reveal(eval);
            reveal(run_list);
            lemma_arms_len(arms@);
        }
        Ok(None)
    }
}

} // verus!
