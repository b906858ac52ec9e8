//! Expressions.

use super::values::{operation, prefix};
use super::{value_outcome, Evaluator};
use crate::ast::{arms_view, exprs_view, stmts_view, ExprType, ExprView, Ident, Literal, Stmt};
use crate::display::push_signed;
use crate::number::{NumberReply, NumberRequest};
use crate::objects::{lemma_values_len, Object};
use crate::semantics::{
    assign, call, else_ifs, eval, eval_entries, eval_list, flow_value, init_members, is_compound,
    print_items, run_list, undefined_message, RuntimeError,
};
use crate::text::push_decimal;
use crate::token::{Token, TokenKind, TokenView};
use vstd::prelude::*;

verus! {

fn flow_object<'p>(flow: Option<Object<'p>>) -> (o: Object<'p>)
    ensures
        o.view() == flow_value(
            match flow {
                Some(v) => Some(v.view()),
                None => None,
            },
        ),
{
    match flow {
        Some(v) => Object::ReturnValue(Box::new(v)),
        None => Object::Nil,
    }
}

fn compound(op: TokenKind) -> (b: bool)
    ensures
        b == is_compound(op),
{
    op == TokenKind::PlusSelf || op == TokenKind::MinusSelf || op == TokenKind::StarSelf || op
        == TokenKind::SlashSelf || op == TokenKind::ModSelf
}

impl<'p, K: Fn(NumberRequest) -> NumberReply> Evaluator<'p, K> {
    /// Writes that `name` is not bound.
    fn report_undefined(&mut self, name: &String)
        requires
            old(self).wf(),
        ensures
            final(self).after(old(self)),
            final(self).world() == old(self).world().write(undefined_message(name@)),
    {
        let mut message = String::from_str("Undefined variable '");
        message.append(name.as_str());
        message.append("'.\n");
        self.write(message.as_str());
    }

    /// The value of the expression `e`.
    pub(crate) fn eval(&mut self, e: &'p ExprType) -> (r: Result<Object<'p>, RuntimeError>)
        requires
            old(self).wf(),
        ensures
            final(self).after(old(self)),
            value_outcome(final(self).world(), r) == eval(
                old(self).world(),
                e.view(),
                old(self).rules(),
            ),
        decreases old(self).world().fuel, e.view(), 3nat,
    {
        match e {
            ExprType::Literal(l) => self.eval_literal(e, l),
            ExprType::Ident(name) => self.eval_ident(e, name),
            ExprType::ThisExpr(field) => self.eval_this(e, field),
            ExprType::GroupingExpr(inner) => {
                proof {
                    reveal(eval);
                }
                self.eval(inner)
            },
            ExprType::PrefixExpr(op, right) => {
                proof {
                    reveal(eval);
                }
                match self.eval(right) {
                    Err(x) => Err(x),
                    Ok(v) => prefix(op.kind(), v),
                }
            },
            ExprType::InfixExpr(left, op, right) => {
                if op.kind() == TokenKind::Equal {
                    proof {
                        reveal(eval);
                        reveal(assign);
                    }
                    self.assign(left, right, Ghost(op@))
                } else if compound(op.kind()) {
                    self.eval_compound(e, left, op, right)
                } else {
                    self.eval_infix(e, left, op, right)
                }
            },
            ExprType::PrintExpr(exprs) => {
                proof {
                    reveal(eval);
                    reveal(print_items);
                }
                match self.print_items(exprs) {
                    Ok(_) => Ok(Object::Nil),
                    Err(x) => Err(x),
                }
            },
            ExprType::IndexExpr(target, index) => self.eval_index(e, target, index),
            ExprType::If { condition, elseif, then_branch, else_branch } => self.eval_if(
                e,
                condition,
                elseif,
                then_branch,
                else_branch,
            ),
            ExprType::Function { params, body } => {
                proof {
                    reveal(eval);
                }
                Ok(Object::Function(params, body))
            },
            ExprType::Call { callee, args } => self.eval_call(e, callee, args),
            ExprType::ClassInit { name, args } => self.eval_class_init(e, name, args),
            ExprType::ClassCall { callee, method, args } => self.eval_class_call(
                e,
                callee,
                method,
                args,
            ),
            ExprType::ClassGet { callee, prop } => self.eval_class_get(e, callee, prop),
            ExprType::ThisCall { method, args } => self.eval_this_call(e, method, args),
        }
    }

    fn eval_literal(&mut self, e: &'p ExprType, l: &'p Literal) -> (r: Result<
        Object<'p>,
        RuntimeError,
    >)
        requires
            old(self).wf(),
            e.view() == ExprView::Literal(l.view()),
        ensures
            final(self).after(old(self)),
            value_outcome(final(self).world(), r) == eval(
                old(self).world(),
                e.view(),
                old(self).rules(),
            ),
        decreases old(self).world().fuel, e.view(), 2nat,
    {
        proof {
            reveal(eval);
            reveal(eval_list);
            reveal(eval_entries);
        }
        match l {
            Literal::Number(n) => Ok(Object::Number(*n)),
            Literal::String(s) => Ok(Object::String(s.clone())),
            Literal::Bool(b) => Ok(Object::Boolean(*b)),
            Literal::Index(i) => Ok(Object::Index(*i)),
            Literal::Nil => Ok(Object::Nil),
            Literal::Array(elements) => match self.eval_list(elements) {
                Ok(vs) => Ok(Object::Array(vs)),
                Err(x) => Err(x),
            },
            Literal::Hash(pairs) => {
                let h = self.new_hash();
                match self.eval_entries(pairs, h) {
                    Ok(_) => Ok(Object::Hash(h)),
                    Err(x) => Err(x),
                }
            },
        }
    }

    fn eval_ident(&mut self, e: &'p ExprType, name: &'p Ident) -> (r: Result<
        Object<'p>,
        RuntimeError,
    >)
        requires
            old(self).wf(),
            e.view() == ExprView::Ident(name@),
        ensures
            final(self).after(old(self)),
            value_outcome(final(self).world(), r) == eval(
                old(self).world(),
                e.view(),
                old(self).rules(),
            ),
    {
        proof {
            reveal(eval);
        }
        match self.builtin(&name.0) {
            Some(b) => Ok(b),
            None => match self.lookup(&name.0) {
                Some(v) => Ok(v),
                None => {
                    self.report_undefined(&name.0);
                    Err(RuntimeError::UndefinedVariable)
                },
            },
        }
    }

    fn eval_this(&mut self, e: &'p ExprType, field: &'p Ident) -> (r: Result<
        Object<'p>,
        RuntimeError,
    >)
        requires
            old(self).wf(),
            e.view() == ExprView::ThisExpr(field@),
        ensures
            final(self).after(old(self)),
            value_outcome(final(self).world(), r) == eval(
                old(self).world(),
                e.view(),
                old(self).rules(),
            ),
    {
        proof {
            reveal(eval);
        }
        match self.receiver() {
            None => Err(RuntimeError::NoReceiver),
            Some(Object::ClassInstance { id, .. }) => match self.field(id, &field.0) {
                Some(v) => Ok(v),
                None => Ok(Object::Nil),
            },
            Some(_) => Ok(Object::Nil),
        }
    }

    fn eval_infix(
        &mut self,
        e: &'p ExprType,
        left: &'p ExprType,
        op: &'p Token,
        right: &'p ExprType,
    ) -> (r: Result<Object<'p>, RuntimeError>)
        requires
            old(self).wf(),
            e.view() == ExprView::InfixExpr(
                Box::new(left.view()),
                op@,
                Box::new(right.view()),
            ),
            op@.kind != TokenKind::Equal,
            !is_compound(op@.kind),
        ensures
            final(self).after(old(self)),
            value_outcome(final(self).world(), r) == eval(
                old(self).world(),
                e.view(),
                old(self).rules(),
            ),
        decreases old(self).world().fuel, e.view(), 2nat,
    {
        proof {
            reveal(eval);
        }
        let l = match self.eval(left) {
            Err(x) => {
                return Err(x);
            },
            Ok(l) => l,
        };
        match self.eval(right) {
            Err(x) => Err(x),
            Ok(v) => self.binary(op.kind(), &l, &v),
        }
    }

    fn eval_compound(
        &mut self,
        e: &'p ExprType,
        left: &'p ExprType,
        op: &'p Token,
        right: &'p ExprType,
    ) -> (r: Result<Object<'p>, RuntimeError>)
        requires
            old(self).wf(),
            e.view() == ExprView::InfixExpr(
                Box::new(left.view()),
                op@,
                Box::new(right.view()),
            ),
            is_compound(op@.kind),
        ensures
            final(self).after(old(self)),
            value_outcome(final(self).world(), r) == eval(
                old(self).world(),
                e.view(),
                old(self).rules(),
            ),
        decreases old(self).world().fuel, e.view(), 2nat,
    {
        proof {
            reveal(eval);
        }
        match left {
            ExprType::Ident(name) => match self.eval(right) {
                Err(x) => Err(x),
                Ok(Object::Number(b)) => match self.lookup(&name.0) {
                    Some(Object::Number(n)) => match operation(op.kind()) {
                        Some(o) => {
                            let v = self.compute(o, n, b);
                            self.assign_name(name.0.clone(), Object::Number(v));
                            Ok(Object::Number(v))
                        },
                        None => Err(RuntimeError::TypeMismatch),
                    },
                    Some(_) => Err(RuntimeError::TypeMismatch),
                    None => Err(RuntimeError::UndefinedVariable),
                },
                Ok(_) => Err(RuntimeError::TypeMismatch),
            },
            _ => Ok(Object::Nil),
        }
    }

    /// The assignment of `value` to `target`.
    pub(crate) fn assign(
        &mut self,
        target: &'p ExprType,
        value: &'p ExprType,
        Ghost(op): Ghost<TokenView>,
    ) -> (r: Result<Object<'p>, RuntimeError>)
        requires
            old(self).wf(),
        ensures
            final(self).after(old(self)),
            value_outcome(final(self).world(), r) == assign(
                old(self).world(),
                ExprView::InfixExpr(Box::new(target.view()), op, Box::new(value.view())),
                old(self).rules(),
            ),
        decreases
                old(self).world().fuel,
                ExprView::InfixExpr(Box::new(target.view()), op, Box::new(value.view())),
                1nat,
    {
        proof {
            reveal(assign);
            reveal(eval);
        }
        match target {
            ExprType::Ident(name) => match self.eval(value) {
                Err(x) => Err(x),
                Ok(v) => {
                    self.assign_name(name.0.clone(), v.duplicate());
                    Ok(v)
                },
            },
            ExprType::ThisExpr(field) => match self.receiver() {
                None => Err(RuntimeError::NoReceiver),
                Some(Object::ClassInstance { id, .. }) => match self.eval(value) {
                    Err(x) => Err(x),
                    Ok(v) => {
                        self.field_put(id, field.0.clone(), v.duplicate());
                        Ok(v)
                    },
                },
                Some(other) => Ok(other),
            },
            ExprType::IndexExpr(container, index) => match self.eval(container) {
                Err(x) => Err(x),
                Ok(Object::Hash(h)) => {
                    let key = match self.eval(index) {
                        Err(x) => {
                            return Err(x);
                        },
                        Ok(k) => k,
                    };
                    match self.eval(value) {
                        Err(x) => Err(x),
                        Ok(v) => {
                            self.hash_put(h, key, v.duplicate());
                            Ok(v)
                        },
                    }
                },
                Ok(_) => Err(RuntimeError::TypeMismatch),
            },
            _ => Err(RuntimeError::TypeMismatch),
        }
    }

    fn eval_index(&mut self, e: &'p ExprType, target: &'p ExprType, index: &'p ExprType) -> (r:
        Result<Object<'p>, RuntimeError>)
        requires
            old(self).wf(),
            e.view() == ExprView::IndexExpr(Box::new(target.view()), Box::new(index.view())),
        ensures
            final(self).after(old(self)),
            value_outcome(final(self).world(), r) == eval(
                old(self).world(),
                e.view(),
                old(self).rules(),
            ),
        decreases old(self).world().fuel, e.view(), 2nat,
    {
        proof {
            reveal(eval);
        }
        let t = match self.eval(target) {
            Err(x) => {
                return Err(x);
            },
            Ok(t) => t,
        };
        match self.eval(index) {
            Err(x) => Err(x),
            Ok(i) => self.element(&t, &i),
        }
    }

    fn eval_if(
        &mut self,
        e: &'p ExprType,
        condition: &'p ExprType,
        elseif: &'p Vec<(Box<ExprType>, Vec<Stmt>)>,
        then_branch: &'p Vec<Stmt>,
        else_branch: &'p Vec<Stmt>,
    ) -> (r: Result<Object<'p>, RuntimeError>)
        requires
            old(self).wf(),
            e.view() == (ExprView::If {
                condition: Box::new(condition.view()),
                elseif: arms_view(elseif@),
                then_branch: stmts_view(then_branch@),
                else_branch: stmts_view(else_branch@),
            }),
        ensures
            final(self).after(old(self)),
            value_outcome(final(self).world(), r) == eval(
                old(self).world(),
                e.view(),
                old(self).rules(),
            ),
        decreases old(self).world().fuel, e.view(), 2nat,
    {
        proof {
            reveal(eval);
            reveal(run_list);
            reveal(else_ifs);
        }
        match self.eval(condition) {
            Err(x) => Err(x),
            Ok(Object::Boolean(true)) => match self.run_list(then_branch) {
                Ok(flow) => Ok(flow_object(flow)),
                Err(x) => Err(x),
            },
            Ok(Object::Boolean(false)) => match self.else_ifs(elseif) {
                Err(x) => Err(x),
                Ok(Some(flow)) => Ok(flow_object(flow)),
                Ok(None) => match self.run_list(else_branch) {
                    Ok(flow) => Ok(flow_object(flow)),
                    Err(x) => Err(x),
                },
            },
            Ok(_) => Ok(Object::Nil),
        }
    }

    fn eval_call(&mut self, e: &'p ExprType, callee: &'p ExprType, args: &'p Vec<ExprType>) -> (r:
        Result<Object<'p>, RuntimeError>)
        requires
            old(self).wf(),
            e.view() == (ExprView::Call {
                callee: Box::new(callee.view()),
                args: exprs_view(args@),
            }),
        ensures
            final(self).after(old(self)),
            value_outcome(final(self).world(), r) == eval(
                old(self).world(),
                e.view(),
                old(self).rules(),
            ),
        decreases old(self).world().fuel, e.view(), 2nat,
    {
        proof {
            reveal(eval);
            reveal(eval_list);
            reveal(call);
        }
        match self.eval(callee) {
            Err(x) => Err(x),
            Ok(Object::Builtin(name, arity, index)) => match self.eval_list(args) {
                Err(x) => Err(x),
                Ok(vs) => {
                    proof {
                        lemma_values_len(vs@);
                    }
                    if arity != -1 && (arity < 0 || vs.len() != arity as usize) {
                        let mut message = String::from_str("fun ");
                        message.append(name.as_str());
                        message.append(": Expected ");
                        push_signed(&mut message, arity);
                        message.append(" arguments but got ");
                        push_decimal(&mut message, vs.len() as u128);
                        message.append(".\n");
                        self.write(message.as_str());
                        Err(RuntimeError::WrongArity)
                    } else {
                        Ok(self.apply_builtin(index, &vs))
                    }
                },
            },
            Ok(Object::Function(params, body)) => self.call(params, body, args, None),
            Ok(_) => Err(RuntimeError::NotCallable),
        }
    }

    fn eval_class_init(&mut self, e: &'p ExprType, name: &'p Ident, args: &'p Vec<ExprType>) -> (r:
        Result<Object<'p>, RuntimeError>)
        requires
            old(self).wf(),
            e.view() == (ExprView::ClassInit { name: name@, args: exprs_view(args@) }),
        ensures
            final(self).after(old(self)),
            value_outcome(final(self).world(), r) == eval(
                old(self).world(),
                e.view(),
                old(self).rules(),
            ),
        decreases old(self).world().fuel, e.view(), 2nat,
    {
        proof {
            reveal(eval);
            reveal(init_members);
            reveal(call);
        }
        match self.lookup(&name.0) {
            None => {
                self.report_undefined(&name.0);
                Err(RuntimeError::UndefinedVariable)
            },
            Some(Object::Class(_, members)) => {
                if !self.burn() {
                    return Err(RuntimeError::StepLimit);
                }
                let id = self.new_instance();
                match self.init_members(members, id) {
                    Err(x) => Err(x),
                    Ok(_) => {
                        let init = String::from_str("init");
                        match self.method(id, &init) {
                            Some(Object::Function(params, body)) => {
                                let receiver = Object::ClassInstance { name: name.0.clone(), id };
                                match self.call(params, body, args, Some(receiver)) {
                                    Err(x) => Err(x),
                                    Ok(_) => Ok(
                                        Object::ClassInstance { name: name.0.clone(), id },
                                    ),
                                }
                            },
                            _ => Ok(Object::ClassInstance { name: name.0.clone(), id }),
                        }
                    },
                }
            },
            Some(_) => Ok(Object::Nil),
        }
    }

    fn eval_class_call(
        &mut self,
        e: &'p ExprType,
        callee: &'p Ident,
        method: &'p Ident,
        args: &'p Vec<ExprType>,
    ) -> (r: Result<Object<'p>, RuntimeError>)
        requires
            old(self).wf(),
            e.view() == (ExprView::ClassCall {
                callee: callee@,
                method: method@,
                args: exprs_view(args@),
            }),
        ensures
            final(self).after(old(self)),
            value_outcome(final(self).world(), r) == eval(
                old(self).world(),
                e.view(),
                old(self).rules(),
            ),
        decreases old(self).world().fuel, e.view(), 2nat,
    {
        proof {
            reveal(eval);
            reveal(call);
        }
        match self.lookup(&callee.0) {
            None => {
                self.report_undefined(&callee.0);
                Err(RuntimeError::UndefinedVariable)
            },
            Some(Object::ClassInstance { name, id }) => match self.method(id, &method.0) {
                Some(Object::Function(params, body)) => self.call(
                    params,
                    body,
                    args,
                    Some(Object::ClassInstance { name, id }),
                ),
                Some(_) => Ok(Object::Nil),
                None => Err(RuntimeError::NoSuchMethod),
            },
            Some(_) => Ok(Object::Nil),
        }
    }

    fn eval_class_get(&mut self, e: &'p ExprType, callee: &'p Ident, prop: &'p Ident) -> (r: Result<
        Object<'p>,
        RuntimeError,
    >)
        requires
            old(self).wf(),
            e.view() == (ExprView::ClassGet { callee: callee@, prop: prop@ }),
        ensures
            final(self).after(old(self)),
            value_outcome(final(self).world(), r) == eval(
                old(self).world(),
                e.view(),
                old(self).rules(),
            ),
    {
        proof {
            reveal(eval);
        }
        match self.lookup(&callee.0) {
            None => {
                self.report_undefined(&callee.0);
                Err(RuntimeError::UndefinedVariable)
            },
            Some(Object::ClassInstance { name, id }) => match self.field(id, &prop.0) {
                Some(v) => Ok(v),
                None => Ok(Object::Nil),
            },
            Some(other) => Ok(other),
        }
    }

    fn eval_this_call(&mut self, e: &'p ExprType, method: &'p Ident, args: &'p Vec<ExprType>) -> (r:
        Result<Object<'p>, RuntimeError>)
        requires
            old(self).wf(),
            e.view() == (ExprView::ThisCall { method: method@, args: exprs_view(args@) }),
        ensures
            final(self).after(old(self)),
            value_outcome(final(self).world(), r) == eval(
                old(self).world(),
                e.view(),
                old(self).rules(),
            ),
        decreases old(self).world().fuel, e.view(), 2nat,
    {
        proof {
            reveal(eval);
            reveal(call);
        }
        match self.receiver() {
            None => Err(RuntimeError::NoReceiver),
            Some(Object::ClassInstance { name, id }) => match self.method(id, &method.0) {
                Some(Object::Function(params, body)) => self.call(
                    params,
                    body,
                    args,
                    Some(Object::ClassInstance { name, id }),
                ),
                Some(_) => Ok(Object::Nil),
                None => Err(RuntimeError::NoSuchMethod),
            },
            Some(_) => Ok(Object::Nil),
        }
    }
}

} // verus!
