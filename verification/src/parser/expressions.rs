//! Expressions: the operand that an expression begins with, and what
//! follows an operator.

use super::{expr_parsed, precedence_for, Parser};
use crate::ast::{ExprType, Ident, Precedence};
use crate::grammar::Grammar;
use crate::number::{parse_number, NumberReply, NumberRequest};
use crate::token::{Token, TokenKind};
use vstd::prelude::*;

verus! {

impl<'a, K: Fn(NumberRequest) -> NumberReply> Parser<'a, K> {
    /// An expression whose operators all bind tighter than `min`.
    pub(super) fn expression(&mut self, min: Precedence) -> (r: Option<ExprType>)
        requires
            old(self).wf(),
        ensures
            final(self).follows(old(self)),
            expr_parsed(r, final(self).cursor()) == old(self).grammar().expression(
                old(self).cursor(),
                min,
            ),
            r is Some ==> final(self).cursor().at > old(self).cursor().at,
        decreases old(self).left(), 6int,
    {
        proof {
            reveal(Grammar::expression);
            reveal(Grammar::operand);
            reveal(Grammar::operators);
        }
        match self.operand() {
            None => None,
            Some(left) => {
                let closed = match &left {
                    ExprType::PrintExpr(_) => true,
                    ExprType::ThisCall { .. } => true,
                    _ => false,
                };
                if closed {
                    Some(left)
                } else {
                    proof {
                        self.lemma_left();
                        old(self).lemma_left();
                    }
                    self.operators(left, min)
                }
            },
        }
    }

    /// What an expression starts with.
    #[verifier::rlimit(60)]
    pub(super) fn operand(&mut self) -> (r: Option<ExprType>)
        requires
            old(self).wf(),
        ensures
            final(self).follows(old(self)),
            expr_parsed(r, final(self).cursor()) == old(self).grammar().operand(
                old(self).cursor(),
            ),
            r is Some ==> final(self).cursor().at > old(self).cursor().at,
        decreases old(self).left(), 5int,
    {
        proof {
            reveal(Grammar::operand);
            reveal(Grammar::expression);
            reveal(Grammar::items);
            reveal(Grammar::entries);
            reveal(Grammar::new_operand);
            reveal(Grammar::this_operand);
            reveal(Grammar::if_operand);
            reveal(Grammar::function);
            reveal(Grammar::print_items);
        }
        proof {
            self.lemma_left();
        }
        match self.kind() {
            TokenKind::Bang | TokenKind::Plus | TokenKind::Minus => {
                let op = self.current.duplicate();
                self.next();
                proof {
                    self.lemma_left();
                }
                match self.expression(Precedence::Prefix) {
                    Some(right) => Some(ExprType::PrefixExpr(op, Box::new(right))),
                    None => {
                        self.fail("Expect expression");
                        None
                    },
                }
            },
            TokenKind::LeftParen => {
                self.next();
                proof {
                    self.lemma_left();
                }
                let inner = self.expression(Precedence::Lowest);
                if self.kind() != TokenKind::RightParen {
                    self.fail("Expect expression");
                    return None;
                }
                self.next();
                match inner {
                    Some(e) => Some(ExprType::GroupingExpr(Box::new(e))),
                    None => {
                        self.fail("Expect expression");
                        None
                    },
                }
            },
            TokenKind::Number => {
                let text = self.text();
                let n = parse_number(&self.numbers, text.as_str());
                self.next();
                Some(ExprType::number(n))
            },
            TokenKind::Identifier => {
                let name = self.text();
                self.next();
                Some(ExprType::Ident(Ident(name)))
            },
            TokenKind::True => {
                self.next();
                Some(ExprType::boolean(true))
            },
            TokenKind::False => {
                self.next();
                Some(ExprType::boolean(false))
            },
            TokenKind::String => {
                let text = self.text();
                self.next();
                Some(ExprType::string(text))
            },
            TokenKind::Nil => {
                self.next();
                Some(ExprType::nil())
            },
            TokenKind::LeftBracket => {
                self.next();
                proof {
                    self.lemma_left();
                }
                match self.items(TokenKind::RightBracket) {
                    Some(elements) => Some(ExprType::array(elements)),
                    None => None,
                }
            },
            TokenKind::LeftBrace => {
                self.next();
                proof {
                    self.lemma_left();
                }
                match self.entries() {
                    Some(pairs) => Some(ExprType::hash(pairs)),
                    None => None,
                }
            },
            TokenKind::New => {
                self.next();
                proof {
                    self.lemma_left();
                }
                self.new_operand()
            },
            TokenKind::This => {
                self.next();
                proof {
                    self.lemma_left();
                }
                self.this_operand()
            },
            TokenKind::If => {
                self.next();
                proof {
                    self.lemma_left();
                }
                self.if_operand()
            },
            TokenKind::Fun => {
                self.next();
                proof {
                    self.lemma_left();
                }
                self.function()
            },
            TokenKind::Print => {
                self.next();
                proof {
                    self.lemma_left();
                }
                match self.print_items() {
                    Some(exprs) => Some(ExprType::PrintExpr(Box::new(exprs))),
                    None => None,
                }
            },
            _ => {
                self.fail("Expect expression");
                None
            },
        }
    }

    /// After a binary operator: its right operand.
    pub(super) fn right_operand(&mut self, left: ExprType, op: Token) -> (r: Option<ExprType>)
        requires
            old(self).wf(),
        ensures
            final(self).follows(old(self)),
            expr_parsed(r, final(self).cursor()) == old(self).grammar().right_operand(
                old(self).cursor(),
                left.view(),
                op@,
            ),
        decreases old(self).left(), 7int,
    {
        proof {
            reveal(Grammar::right_operand);
            reveal(Grammar::expression);
        }
        match self.expression(precedence_for(op.kind())) {
            None => {
                self.fail("Expect expression");
                None
            },
            Some(right) => {
                let assignable = match &left {
                    ExprType::Ident(_) => true,
                    ExprType::ThisExpr(_) => true,
                    ExprType::IndexExpr(_, _) => true,
                    _ => false,
                };
                if op.kind() == TokenKind::Equal && !assignable {
                    self.fail("Invalid assignment target");
                    return None;
                }
                Some(ExprType::InfixExpr(Box::new(left), op, Box::new(right)))
            },
        }
    }

    /// After `[`: the index and `]`.
    pub(super) fn index_operand(&mut self, left: ExprType) -> (r: Option<ExprType>)
        requires
            old(self).wf(),
        ensures
            final(self).follows(old(self)),
            expr_parsed(r, final(self).cursor()) == old(self).grammar().index_operand(
                old(self).cursor(),
                left.view(),
            ),
        decreases old(self).left(), 7int,
    {
        proof {
            reveal(Grammar::index_operand);
            reveal(Grammar::expression);
        }
        match self.expression(Precedence::Lowest) {
            None => None,
            Some(index) => {
                if self.kind() != TokenKind::RightBracket {
                    self.fail("Expect ']' after index");
                    return None;
                }
                self.next();
                let index = match index.as_number() {
                    Some(n) => ExprType::index(n.to_index()),
                    None => index,
                };
                Some(ExprType::IndexExpr(Box::new(left), Box::new(index)))
            },
        }
    }

    /// After `.` on the name `callee`.
    pub(super) fn member(&mut self, callee: Ident) -> (r: Option<ExprType>)
        requires
            old(self).wf(),
        ensures
            final(self).follows(old(self)),
            expr_parsed(r, final(self).cursor()) == old(self).grammar().member(
                old(self).cursor(),
                callee@,
            ),
        decreases old(self).left(), 7int,
    {
        proof {
            reveal(Grammar::member);
            reveal(Grammar::items);
        }
        proof {
            self.lemma_left();
        }
        match self.parse_ident() {
            None => {
                self.fail("Expect property name after '.'");
                None
            },
            Some(name) => {
                self.next();
                proof {
                    self.lemma_left();
                }
                if self.kind() != TokenKind::LeftParen {
                    return Some(ExprType::ClassGet { callee, prop: name });
                }
                self.next();
                proof {
                    self.lemma_left();
                }
                match self.items(TokenKind::RightParen) {
                    Some(args) => Some(ExprType::ClassCall { callee, method: name, args }),
                    None => None,
                }
            },
        }
    }
}

} // verus!
