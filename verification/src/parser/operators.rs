//! The operators that follow an operand, by precedence.

use super::{binary_operator, expr_parsed, precedence_for, Parser};
use crate::ast::{ExprType, Ident, Precedence};
use crate::grammar::Grammar;
use crate::number::{NumberReply, NumberRequest};
use crate::token::TokenKind;
use vstd::prelude::*;

verus! {

impl<'a, K: Fn(NumberRequest) -> NumberReply> Parser<'a, K> {
    /// The operators after the operand `left` that bind tighter than
    /// `min`.
    #[verifier::rlimit(60)]
    pub(super) fn operators(&mut self, operand: ExprType, min: Precedence) -> (r: Option<ExprType>)
        requires
            old(self).wf(),
        ensures
            final(self).follows(old(self)),
            expr_parsed(r, final(self).cursor()) == old(self).grammar().operators(
                old(self).cursor(),
                operand.view(),
                min,
            ),
        decreases old(self).left(), 4int,
    {
        proof {
            reveal(Grammar::operators);
            reveal(Grammar::right_operand);
            reveal(Grammar::items);
            reveal(Grammar::index_operand);
            reveal(Grammar::member);
        }
        let ghost first = operand.view();
        let mut left: ExprType = operand;
        let ghost g = self.grammar();
        loop
            invariant
                old(self).wf(),
                self.follows(old(self)),
                g == self.grammar(),
                first == operand.view(),
                g.operators(old(self).cursor(), first, min) == g.operators(
                    self.cursor(),
                    left.view(),
                    min,
                ),
            decreases self.left(),
        {
            proof {
                reveal(Grammar::operators);
                reveal(Grammar::right_operand);
                reveal(Grammar::items);
                reveal(Grammar::index_operand);
                reveal(Grammar::member);
                self.lemma_left();
                old(self).lemma_left();
            }
            let kind = self.kind();
            if kind == TokenKind::Semicolon || !(min.rank() < precedence_for(kind).rank()) {
                return Some(left);
            }
            let ghost here = self.cursor();
            let result = if binary_operator(kind) {
                let op = self.current.duplicate();
                self.next();
                proof {
                    self.lemma_left();
                }
                self.right_operand(left, op)
            } else if kind == TokenKind::LeftParen {
                self.next();
                proof {
                    self.lemma_left();
                }
                match self.items(TokenKind::RightParen) {
                    Some(args) => Some(ExprType::Call { callee: Box::new(left), args }),
                    None => None,
                }
            } else if kind == TokenKind::LeftBracket {
                self.next();
                proof {
                    self.lemma_left();
                }
                self.index_operand(left)
            } else {
                match left {
                    ExprType::Ident(name) => {
                        self.next();
                        proof {
                            self.lemma_left();
                        }
                        self.member(name)
                    },
                    _ => {
                        self.fail("Expect identifier before '.'");
                        None
                    },
                }
            };
            match result {
                None => {
                    return None;
                },
                Some(e) => {
                    left = e;
                    proof {
                        self.lemma_left();
                    }
                },
            }
        }
    }
}

} // verus!
