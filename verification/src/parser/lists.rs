//! Lists of expressions, and the operands that hold them: arrays, hashes,
//! `new`, `this` and `if`.

use super::{expr_parsed, exprs_parsed, lemma_arms_push, lemma_exprs_push, lemma_pairs_push, Parser};
use crate::ast::{
    arms_view, exprs_view, pairs_view, stmts_view, BlockStmt, ExprType, Precedence, Stmt,
};
use crate::grammar::{Grammar, Parsed};
use crate::number::{NumberReply, NumberRequest};
use crate::token::TokenKind;
use vstd::prelude::*;

verus! {

impl<'a, K: Fn(NumberRequest) -> NumberReply> Parser<'a, K> {
    /// Expressions up to and including the token of kind `close`.
    pub(super) fn items(&mut self, close: TokenKind) -> (r: Option<Vec<ExprType>>)
        requires
            old(self).wf(),
        ensures
            final(self).follows(old(self)),
            exprs_parsed(r, final(self).cursor()) == old(self).grammar().items(
                old(self).cursor(),
                Seq::empty(),
                close,
            ),
        decreases old(self).left(), 9int,
    {
        proof {
            reveal(Grammar::items);
            reveal(Grammar::expression);
        }
        let mut acc: Vec<ExprType> = Vec::new();
        let ghost g = self.grammar();
        loop
            invariant
                old(self).wf(),
                self.follows(old(self)),
                g == self.grammar(),
                g.items(old(self).cursor(), Seq::empty(), close) == g.items(
                    self.cursor(),
                    exprs_view(acc@),
                    close,
                ),
            decreases self.left(),
        {
            proof {
                reveal(Grammar::items);
                reveal(Grammar::expression);
                self.lemma_left();
                old(self).lemma_left();
            }
            if self.kind() == close {
                self.next();
                return Some(acc);
            }
            match self.expression(Precedence::Lowest) {
                None => {
                    return None;
                },
                Some(e) => {
                    proof {
                        lemma_exprs_push(acc@, e);
                        self.lemma_left();
                    }
                    acc.push(e);
                    if self.kind() == TokenKind::Comma {
                        self.next();
                    }
                    proof {
                        self.lemma_left();
                    }
                },
            }
        }
    }

    /// After `print`: expressions up to a semicolon.
    pub(super) fn print_items(&mut self) -> (r: Option<Vec<ExprType>>)
        requires
            old(self).wf(),
        ensures
            final(self).follows(old(self)),
            exprs_parsed(r, final(self).cursor()) == old(self).grammar().print_items(
                old(self).cursor(),
                Seq::empty(),
            ),
        decreases old(self).left(), 9int,
    {
        proof {
            reveal(Grammar::print_items);
            reveal(Grammar::expression);
        }
        let mut acc: Vec<ExprType> = Vec::new();
        let ghost g = self.grammar();
        loop
            invariant
                old(self).wf(),
                self.follows(old(self)),
                g == self.grammar(),
                g.print_items(old(self).cursor(), Seq::empty()) == g.print_items(
                    self.cursor(),
                    exprs_view(acc@),
                ),
            decreases self.left(),
        {
            proof {
                reveal(Grammar::print_items);
                reveal(Grammar::expression);
                self.lemma_left();
                old(self).lemma_left();
            }
            if self.kind() == TokenKind::Semicolon {
                return Some(acc);
            }
            match self.expression(Precedence::Lowest) {
                None => {
                    return None;
                },
                Some(e) => {
                    proof {
                        lemma_exprs_push(acc@, e);
                        self.lemma_left();
                    }
                    acc.push(e);
                    if self.kind() == TokenKind::Comma {
                        self.next();
                    }
                    proof {
                        self.lemma_left();
                    }
                },
            }
        }
    }

    /// After `{`: the pairs of a hash literal, up to and including `}`.
    pub(super) fn entries(&mut self) -> (r: Option<Vec<(ExprType, ExprType)>>)
        requires
            old(self).wf(),
        ensures
            final(self).follows(old(self)),
            (Parsed {
                value: match r {
                    Some(ps) => Some(pairs_view(ps@)),
                    None => None,
                },
                cursor: final(self).cursor(),
            }) == old(self).grammar().entries(old(self).cursor(), Seq::empty()),
        decreases old(self).left(), 9int,
    {
        proof {
            reveal(Grammar::entries);
            reveal(Grammar::expression);
        }
        let mut acc: Vec<(ExprType, ExprType)> = Vec::new();
        let ghost g = self.grammar();
        loop
            invariant
                old(self).wf(),
                self.follows(old(self)),
                g == self.grammar(),
                g.entries(old(self).cursor(), Seq::empty()) == g.entries(
                    self.cursor(),
                    pairs_view(acc@),
                ),
            decreases self.left(),
        {
            proof {
                reveal(Grammar::entries);
                reveal(Grammar::expression);
                self.lemma_left();
                old(self).lemma_left();
            }
            if self.kind() == TokenKind::RightBrace {
                self.next();
                return Some(acc);
            }
            match self.expression(Precedence::Lowest) {
                None => {
                    return None;
                },
                Some(key) => {
                    if self.kind() != TokenKind::Colon {
                        self.fail("Expect ':' after hash key");
                        return None;
                    }
                    self.next();
                    proof {
                        self.lemma_left();
                    }
                    match self.expression(Precedence::Lowest) {
                        None => {
                            return None;
                        },
                        Some(value) => {
                            proof {
                                lemma_pairs_push(acc@, key, value);
                            }
                            acc.push((key, value));
                            if self.kind() == TokenKind::Comma {
                                self.next();
                            }
                        },
                    }
                },
            }
        }
    }

    /// After `new`.
    pub(super) fn new_operand(&mut self) -> (r: Option<ExprType>)
        requires
            old(self).wf(),
        ensures
            final(self).follows(old(self)),
            expr_parsed(r, final(self).cursor()) == old(self).grammar().new_operand(
                old(self).cursor(),
            ),
        decreases old(self).left(), 7int,
    {
        proof {
            reveal(Grammar::new_operand);
            reveal(Grammar::items);
        }
        proof {
            self.lemma_left();
        }
        match self.parse_ident() {
            None => {
                self.fail("Expect class name");
                None
            },
            Some(name) => {
                self.next();
                proof {
                    self.lemma_left();
                }
                if self.kind() != TokenKind::LeftParen {
                    self.fail("Expect '(' after new");
                    return None;
                }
                self.next();
                proof {
                    self.lemma_left();
                }
                match self.items(TokenKind::RightParen) {
                    Some(args) => Some(ExprType::ClassInit { name, args }),
                    None => None,
                }
            },
        }
    }

    /// After `this`.
    pub(super) fn this_operand(&mut self) -> (r: Option<ExprType>)
        requires
            old(self).wf(),
        ensures
            final(self).follows(old(self)),
            expr_parsed(r, final(self).cursor()) == old(self).grammar().this_operand(
                old(self).cursor(),
            ),
        decreases old(self).left(), 7int,
    {
        proof {
            reveal(Grammar::this_operand);
            reveal(Grammar::items);
        }
        proof {
            self.lemma_left();
        }
        if self.kind() != TokenKind::Dot {
            self.fail("Expect '.' after this");
            return None;
        }
        self.next();
        proof {
            self.lemma_left();
        }
        match self.parse_ident() {
            None => {
                self.fail("Expect property name after '.'");
                None
            },
            Some(name) => {
                self.next();
                proof {
                    self.lemma_left();
                }
                if self.kind() != TokenKind::LeftParen {
                    return Some(ExprType::ThisExpr(name));
                }
                self.next();
                proof {
                    self.lemma_left();
                }
                match self.items(TokenKind::RightParen) {
                    Some(args) => Some(ExprType::ThisCall { method: name, args }),
                    None => None,
                }
            },
        }
    }

    /// After `if`.
    pub(super) fn if_operand(&mut self) -> (r: Option<ExprType>)
        requires
            old(self).wf(),
        ensures
            final(self).follows(old(self)),
            expr_parsed(r, final(self).cursor()) == old(self).grammar().if_operand(
                old(self).cursor(),
            ),
        decreases old(self).left(), 7int,
    {
        proof {
            reveal(Grammar::if_operand);
            reveal(Grammar::expression);
            reveal(Grammar::block);
            reveal(Grammar::else_ifs);
        }
        proof {
            self.lemma_left();
        }
        if self.kind() != TokenKind::LeftParen {
            self.fail("Expect '(' after if");
            return None;
        }
        self.next();
        proof {
            self.lemma_left();
        }
        let condition = match self.expression(Precedence::Lowest) {
            None => {
                return None;
            },
            Some(e) => e,
        };
        if self.kind() != TokenKind::RightParen {
            self.fail("Expect ')' after if condition");
            return None;
        }
        self.next();
        proof {
            self.lemma_left();
        }
        let then_branch = match self.block("Expect '{' before block") {
            None => {
                return None;
            },
            Some(b) => b,
        };
        proof {
            self.lemma_left();
        }
        let elseif = match self.else_ifs() {
            None => {
                return None;
            },
            Some(arms) => arms,
        };
        proof {
            self.lemma_left();
        }
        if self.kind() == TokenKind::Else {
            self.next();
            proof {
                self.lemma_left();
            }
            match self.block("Expect '{' before block") {
                None => None,
                Some(else_branch) => Some(
                    ExprType::If {
                        condition: Box::new(condition),
                        elseif,
                        then_branch,
                        else_branch,
                    },
                ),
            }
        } else {
            let else_branch: Vec<Stmt> = Vec::new();
            assert(stmts_view(else_branch@) =~= Seq::empty());
            Some(ExprType::If { condition: Box::new(condition), elseif, then_branch, else_branch })
        }
    }

    /// The `else if` arms of an `if`.
    pub(super) fn else_ifs(&mut self) -> (r: Option<Vec<(Box<ExprType>, BlockStmt)>>)
        requires
            old(self).wf(),
        ensures
            final(self).follows(old(self)),
            (Parsed {
                value: match r {
                    Some(arms) => Some(arms_view(arms@)),
                    None => None,
                },
                cursor: final(self).cursor(),
            }) == old(self).grammar().else_ifs(old(self).cursor(), Seq::empty()),
        decreases old(self).left(), 9int,
    {
        proof {
            reveal(Grammar::else_ifs);
            reveal(Grammar::expression);
            reveal(Grammar::block);
        }
        let mut acc: Vec<(Box<ExprType>, BlockStmt)> = Vec::new();
        let ghost g = self.grammar();
        loop
            invariant
                old(self).wf(),
                self.follows(old(self)),
                g == self.grammar(),
                g.else_ifs(old(self).cursor(), Seq::empty()) == g.else_ifs(
                    self.cursor(),
                    arms_view(acc@),
                ),
            decreases self.left(),
        {
            proof {
                reveal(Grammar::else_ifs);
                reveal(Grammar::expression);
                reveal(Grammar::block);
                self.lemma_left();
                old(self).lemma_left();
            }
            if !(self.kind() == TokenKind::Else && self.next_kind() == TokenKind::If) {
                return Some(acc);
            }
            self.next();
            proof {
                self.lemma_left();
            }
            self.next();
            proof {
                self.lemma_left();
            }
            if self.kind() != TokenKind::LeftParen {
                self.fail("Expect '(' after if");
                return None;
            }
            self.next();
            proof {
                self.lemma_left();
            }
            match self.expression(Precedence::Lowest) {
                None => {
                    return None;
                },
                Some(condition) => {
                    if self.kind() != TokenKind::RightParen {
                        self.fail("Expect ')' after if condition");
                        return None;
                    }
                    self.next();
                    proof {
                        self.lemma_left();
                    }
                    match self.block("Expect '{' before block") {
                        None => {
                            return None;
                        },
                        Some(body) => {
                            proof {
                                lemma_arms_push(acc@, condition, body);
                            }
                            acc.push((Box::new(condition), body));
                        },
                    }
                },
            }
        }
    }
}

} // verus!
