//! `switch`, `while`, `for` and `assert`.

use super::{block_parsed, lemma_stmts_push, stmt_parsed, Parser};
use crate::ast::{stmts_view, ExprType, Precedence, Stmt};
use crate::grammar::{Grammar, Stop};
use crate::number::{NumberReply, NumberRequest};
use crate::token::TokenKind;
use vstd::prelude::*;

verus! {

impl<'a, K: Fn(NumberRequest) -> NumberReply> Parser<'a, K> {
    /// After `switch`.
    pub(super) fn switch_statement(&mut self) -> (r: Option<Stmt>)
        requires
            old(self).wf(),
        ensures
            final(self).follows(old(self)),
            stmt_parsed(r, final(self).cursor()) == old(self).grammar().switch_statement(
                old(self).cursor(),
            ),
        decreases old(self).left(), 7int,
    {
        proof {
            reveal(Grammar::switch_statement);
            reveal(Grammar::expression);
            reveal(Grammar::cases);
            reveal(Grammar::default_arm);
        }
        proof {
            self.lemma_left();
        }
        match self.expression(Precedence::Lowest) {
            None => None,
            Some(subject) => {
                if self.kind() != TokenKind::LeftBrace {
                    self.fail("Expect '{' after switch");
                    return None;
                }
                self.next();
                proof {
                    self.lemma_left();
                }
                match self.cases() {
                    None => None,
                    Some(cases) => {
                        let mut arms = cases;
                        if self.kind() == TokenKind::Default {
                            self.next();
                            proof {
                                self.lemma_left();
                            }
                            match self.default_arm() {
                                None => {
                                    return None;
                                },
                                Some(arm) => {
                                    proof {
                                        lemma_stmts_push(arms@, arm);
                                    }
                                    arms.push(arm);
                                },
                            }
                        }
                        if self.kind() != TokenKind::RightBrace {
                            self.fail("Expect '}' after switch");
                            return None;
                        }
                        self.next();
                        Some(Stmt::Switch(subject, arms))
                    },
                }
            },
        }
    }

    /// The `case` arms of a switch.
    pub(super) fn cases(&mut self) -> (r: Option<Vec<Stmt>>)
        requires
            old(self).wf(),
        ensures
            final(self).follows(old(self)),
            block_parsed(r, final(self).cursor()) == old(self).grammar().cases(
                old(self).cursor(),
                Seq::empty(),
            ),
        decreases old(self).left(), 9int,
    {
        proof {
            reveal(Grammar::cases);
            reveal(Grammar::expression);
            reveal(Grammar::statements);
        }
        let mut acc: Vec<Stmt> = Vec::new();
        let ghost g = self.grammar();
        loop
            invariant
                old(self).wf(),
                self.follows(old(self)),
                g == self.grammar(),
                g.cases(old(self).cursor(), Seq::empty()) == g.cases(
                    self.cursor(),
                    stmts_view(acc@),
                ),
            decreases self.left(),
        {
            proof {
                reveal(Grammar::cases);
                reveal(Grammar::expression);
                reveal(Grammar::statements);
                self.lemma_left();
                old(self).lemma_left();
            }
            if self.kind() != TokenKind::Case {
                return Some(acc);
            }
            self.next();
            proof {
                self.lemma_left();
            }
            match self.expression(Precedence::Lowest) {
                None => {
                    return None;
                },
                Some(e) => {
                    if self.kind() != TokenKind::Colon {
                        self.fail("Expect Colon");
                        return None;
                    }
                    self.next();
                    proof {
                        self.lemma_left();
                    }
                    let body = self.statements(Stop::Case);
                    let arm = Stmt::Case(e, body);
                    proof {
                        lemma_stmts_push(acc@, arm);
                    }
                    acc.push(arm);
                },
            }
        }
    }

    /// After `default`: the last arm of a switch.
    pub(super) fn default_arm(&mut self) -> (r: Option<Stmt>)
        requires
            old(self).wf(),
        ensures
            final(self).follows(old(self)),
            stmt_parsed(r, final(self).cursor()) == old(self).grammar().default_arm(
                old(self).cursor(),
            ),
        decreases old(self).left(), 10int,
    {
        proof {
            reveal(Grammar::default_arm);
            reveal(Grammar::statements);
        }
        proof {
            self.lemma_left();
        }
        if self.kind() != TokenKind::Colon {
            self.fail("Expect Colon");
            return None;
        }
        self.next();
        proof {
            self.lemma_left();
        }
        let body = self.statements(Stop::Case);
        Some(Stmt::Default(body))
    }

    /// After `while`.
    pub(super) fn while_statement(&mut self) -> (r: Option<Stmt>)
        requires
            old(self).wf(),
        ensures
            final(self).follows(old(self)),
            stmt_parsed(r, final(self).cursor()) == old(self).grammar().while_statement(
                old(self).cursor(),
            ),
        decreases old(self).left(), 7int,
    {
        proof {
            reveal(Grammar::while_statement);
            reveal(Grammar::expression);
            reveal(Grammar::block);
        }
        proof {
            self.lemma_left();
        }
        if self.kind() != TokenKind::LeftParen {
            self.fail("Expect '(' after while");
            return None;
        }
        self.next();
        proof {
            self.lemma_left();
        }
        match self.expression(Precedence::Lowest) {
            None => None,
            Some(e) => {
                if self.kind() != TokenKind::RightParen {
                    self.fail("Expect ')' after while condition");
                    return None;
                }
                self.next();
                proof {
                    self.lemma_left();
                }
                match self.block("Expect '{' after while condition") {
                    Some(body) => Some(Stmt::While(e, body)),
                    None => None,
                }
            },
        }
    }

    /// After `for`.
    pub(super) fn for_statement(&mut self) -> (r: Option<Stmt>)
        requires
            old(self).wf(),
        ensures
            final(self).follows(old(self)),
            stmt_parsed(r, final(self).cursor()) == old(self).grammar().for_statement(
                old(self).cursor(),
            ),
        decreases old(self).left(), 7int,
    {
        proof {
            reveal(Grammar::for_statement);
            reveal(Grammar::var_statement);
            reveal(Grammar::for_in);
            reveal(Grammar::for_steps);
        }
        proof {
            self.lemma_left();
        }
        if self.kind() != TokenKind::LeftParen {
            self.fail("Expect '(' after for");
            return None;
        }
        self.next();
        proof {
            self.lemma_left();
        }
        if self.kind() != TokenKind::Var {
            self.fail("Expect var after for");
            return None;
        }
        self.next();
        proof {
            self.lemma_left();
        }
        match self.var_statement() {
            None => None,
            Some(init) => {
                proof {
                    self.lemma_left();
                }
                if self.kind() == TokenKind::In {
                    self.next();
                    proof {
                        self.lemma_left();
                    }
                    self.for_in(init)
                } else {
                    self.for_steps(init)
                }
            },
        }
    }

    /// After `in`.
    pub(super) fn for_in(&mut self, var: Stmt) -> (r: Option<Stmt>)
        requires
            old(self).wf(),
        ensures
            final(self).follows(old(self)),
            stmt_parsed(r, final(self).cursor()) == old(self).grammar().for_in(
                old(self).cursor(),
                var.view(),
            ),
        decreases old(self).left(), 7int,
    {
        proof {
            reveal(Grammar::for_in);
            reveal(Grammar::expression);
            reveal(Grammar::block);
        }
        proof {
            self.lemma_left();
        }
        match self.expression(Precedence::Lowest) {
            None => None,
            Some(iter) => {
                if self.kind() != TokenKind::RightParen {
                    self.fail("Expect ')' after for condition");
                    return None;
                }
                self.next();
                proof {
                    self.lemma_left();
                }
                match self.block("Expect '{' before block") {
                    Some(block) => Some(
                        Stmt::ForIn { var: Box::new(var), iter: Box::new(iter), block },
                    ),
                    None => None,
                }
            },
        }
    }

    /// After the initializer of a `for`.
    pub(super) fn for_steps(&mut self, init: Stmt) -> (r: Option<Stmt>)
        requires
            old(self).wf(),
        ensures
            final(self).follows(old(self)),
            stmt_parsed(r, final(self).cursor()) == old(self).grammar().for_steps(
                old(self).cursor(),
                init.view(),
            ),
        decreases old(self).left(), 7int,
    {
        proof {
            reveal(Grammar::for_steps);
            reveal(Grammar::expression);
            reveal(Grammar::block);
        }
        proof {
            self.lemma_left();
        }
        match self.expression(Precedence::Lowest) {
            None => None,
            Some(conditions) => {
                if self.kind() != TokenKind::Semicolon {
                    self.fail("Expect ';' after for condition");
                    return None;
                }
                self.next();
                proof {
                    self.lemma_left();
                }
                match self.expression(Precedence::Lowest) {
                    None => None,
                    Some(step) => {
                        if self.kind() != TokenKind::RightParen {
                            self.fail("Expect ')' after for condition");
                            return None;
                        }
                        self.next();
                        proof {
                            self.lemma_left();
                        }
                        match self.block("Expect '{' before block") {
                            Some(block) => {
                                let step = Stmt::Expr(step);
                                assert(step.view() is Expr);
                                Some(
                                    Stmt::For {
                                        init: Box::new(init),
                                        conditions: Box::new(conditions),
                                        step: Box::new(step),
                                        block,
                                    },
                                )
                            },
                            None => None,
                        }
                    },
                }
            },
        }
    }

    /// After `assert`.
    pub(super) fn assert_statement(&mut self) -> (r: Option<Stmt>)
        requires
            old(self).wf(),
        ensures
            final(self).follows(old(self)),
            stmt_parsed(r, final(self).cursor()) == old(self).grammar().assert_statement(
                old(self).cursor(),
            ),
        decreases old(self).left(), 7int,
    {
        proof {
            reveal(Grammar::assert_statement);
            reveal(Grammar::expression);
        }
        proof {
            self.lemma_left();
        }
        match self.expression(Precedence::Lowest) {
            None => None,
            Some(condition) => {
                if self.kind() == TokenKind::Comma {
                    self.next();
                    if self.kind() != TokenKind::String {
                        self.fail("Expect string after ','");
                        return None;
                    }
                    let message = self.text();
                    self.next();
                    if self.kind() != TokenKind::Semicolon {
                        self.fail("Expect ';' after assert message");
                        return None;
                    }
                    self.next();
                    return Some(
                        Stmt::Assert {
                            condition: Box::new(condition),
                            message: Box::new(ExprType::string(message)),
                        },
                    );
                }
                if self.kind() != TokenKind::Semicolon {
                    self.fail("Expect ';' after assert");
                    return None;
                }
                self.next();
                Some(
                    Stmt::Assert {
                        condition: Box::new(condition),
                        message: Box::new(ExprType::string(String::new())),
                    },
                )
            },
        }
    }
}

} // verus!
