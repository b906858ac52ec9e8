//! Statements, blocks, and the program as a whole.

use super::{block_parsed, lemma_stmts_push, stmt_parsed, stops, Parser};
use crate::ast::{stmts_view, Precedence, Program, Stmt};
use crate::grammar::{Grammar, Listed, Stop};
use crate::number::{NumberReply, NumberRequest};
use crate::token::TokenKind;
use vstd::prelude::*;

verus! {

impl<'a, K: Fn(NumberRequest) -> NumberReply> Parser<'a, K> {
    /// Statements up to the token `stop` stops at, or to the first that
    /// cannot be read.
    pub(super) fn statements(&mut self, stop: Stop) -> (r: Vec<Stmt>)
        requires
            old(self).wf(),
        ensures
            final(self).follows(old(self)),
            (Listed { items: stmts_view(r@), cursor: final(self).cursor() })
                == old(self).grammar().statements(old(self).cursor(), Seq::empty(), stop),
        decreases old(self).left(), 9int,
    {
        proof {
            reveal(Grammar::statements);
            reveal(Grammar::statement);
        }
        let mut acc: Vec<Stmt> = Vec::new();
        let ghost g = self.grammar();
        loop
            invariant
                old(self).wf(),
                self.follows(old(self)),
                g == self.grammar(),
                g.statements(old(self).cursor(), Seq::empty(), stop) == g.statements(
                    self.cursor(),
                    stmts_view(acc@),
                    stop,
                ),
            decreases self.left(),
        {
            proof {
                reveal(Grammar::statements);
                reveal(Grammar::statement);
                self.lemma_left();
                old(self).lemma_left();
            }
            if stops(&stop, self.kind()) {
                return acc;
            }
            let ghost before = acc@;
            match self.statement() {
                Some(s) => {
                    proof {
                        lemma_stmts_push(before, s);
                    }
                    acc.push(s);
                },
                None => {
                    return acc;
                },
            }
        }
    }

    /// One statement.
    pub(super) fn statement(&mut self) -> (r: Option<Stmt>)
        requires
            old(self).wf(),
        ensures
            final(self).follows(old(self)),
            stmt_parsed(r, final(self).cursor()) == old(self).grammar().statement(
                old(self).cursor(),
            ),
            r is Some ==> final(self).cursor().at > old(self).cursor().at,
        decreases old(self).left(), 8int,
    {
        proof {
            reveal(Grammar::statement);
            reveal(Grammar::function_statement);
            reveal(Grammar::import_statement);
            reveal(Grammar::return_statement);
            reveal(Grammar::var_statement);
            reveal(Grammar::switch_statement);
            reveal(Grammar::while_statement);
            reveal(Grammar::class_statement);
            reveal(Grammar::for_statement);
            reveal(Grammar::assert_statement);
            reveal(Grammar::block);
            reveal(Grammar::expression_statement);
        }
        proof {
            self.lemma_left();
        }
        match self.kind() {
            TokenKind::Eof => None,
            TokenKind::Fun => {
                self.next();
                self.function_statement()
            },
            TokenKind::Import => {
                self.next();
                self.import_statement()
            },
            TokenKind::Return => {
                self.next();
                self.return_statement()
            },
            TokenKind::Var => {
                self.next();
                self.var_statement()
            },
            TokenKind::Switch => {
                self.next();
                self.switch_statement()
            },
            TokenKind::While => {
                self.next();
                self.while_statement()
            },
            TokenKind::Class => {
                self.next();
                self.class_statement()
            },
            TokenKind::For => {
                self.next();
                self.for_statement()
            },
            TokenKind::Assert => {
                self.next();
                self.assert_statement()
            },
            TokenKind::LeftBrace => match self.block("Expect '{' before block") {
                Some(body) => Some(Stmt::Block(body)),
                None => None,
            },
            _ => self.expression_statement(),
        }
    }

    /// `{ Stmt* }`.
    pub(super) fn block(&mut self, message: &str) -> (r: Option<Vec<Stmt>>)
        requires
            old(self).wf(),
        ensures
            final(self).follows(old(self)),
            block_parsed(r, final(self).cursor()) == old(self).grammar().block(
                old(self).cursor(),
                message@,
            ),
            r is Some ==> final(self).cursor().at > old(self).cursor().at,
        decreases old(self).left(), 7int,
    {
        proof {
            reveal(Grammar::block);
            reveal(Grammar::statements);
        }
        proof {
            self.lemma_left();
        }
        if self.kind() != TokenKind::LeftBrace {
            self.fail(message);
            return None;
        }
        self.next();
        proof {
            self.lemma_left();
        }
        let body = self.statements(Stop::Brace);
        if self.kind() != TokenKind::RightBrace {
            self.fail("Expect '}' after block");
            return None;
        }
        self.next();
        Some(body)
    }

    /// An expression as a statement.
    pub(super) fn expression_statement(&mut self) -> (r: Option<Stmt>)
        requires
            old(self).wf(),
        ensures
            final(self).follows(old(self)),
            stmt_parsed(r, final(self).cursor()) == old(self).grammar().expression_statement(
                old(self).cursor(),
            ),
            r is Some ==> final(self).cursor().at > old(self).cursor().at,
        decreases old(self).left(), 7int,
    {
        proof {
            reveal(Grammar::expression_statement);
            reveal(Grammar::expression);
        }
        match self.expression(Precedence::Lowest) {
            Some(e) => {
                if self.kind() == TokenKind::Semicolon {
                    self.next();
                }
                Some(Stmt::Expr(e))
            },
            None => None,
        }
    }

    /// Parses the source: its statements up to the end, or up to the first
    /// that cannot be read. Whether that happened shows in the
    /// diagnostics.
    pub fn parse(&mut self) -> (program: Program)
        requires
            old(self).wf(),
        ensures
            final(self).follows(old(self)),
            (Listed { items: stmts_view(program@), cursor: final(self).cursor() })
                == old(self).grammar().statements(old(self).cursor(), Seq::empty(), Stop::End),
    {
        self.statements(Stop::End)
    }
}

} // verus!
