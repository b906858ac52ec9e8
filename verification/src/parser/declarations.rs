//! Declarations: functions, variables, classes, `return` and `import`.

use super::{block_parsed, expr_parsed, lemma_idents_push, lemma_stmts_push, stmt_parsed, Parser};
use crate::ast::{idents_view, stmts_view, ExprType, Ident, Precedence, Stmt};
use crate::grammar::{Grammar, Parsed};
use crate::number::{NumberReply, NumberRequest};
use crate::token::TokenKind;
use vstd::prelude::*;

verus! {

impl<'a, K: Fn(NumberRequest) -> NumberReply> Parser<'a, K> {
    /// After `fun`: a function statement.
    pub(super) fn function_statement(&mut self) -> (r: Option<Stmt>)
        requires
            old(self).wf(),
        ensures
            final(self).follows(old(self)),
            stmt_parsed(r, final(self).cursor()) == old(self).grammar().function_statement(
                old(self).cursor(),
            ),
        decreases old(self).left(), 7int,
    {
        proof {
            reveal(Grammar::function_statement);
            reveal(Grammar::function);
        }
        proof {
            self.lemma_left();
        }
        match self.parse_ident() {
            None => {
                self.fail("Expect function name");
                None
            },
            Some(name) => {
                self.next();
                proof {
                    self.lemma_left();
                }
                match self.function() {
                    Some(ExprType::Function { params, body }) => Some(
                        Stmt::Function(name, params, body),
                    ),
                    _ => None,
                }
            },
        }
    }

    /// After `fun` or a function's name: parameters and body.
    pub(super) fn function(&mut self) -> (r: Option<ExprType>)
        requires
            old(self).wf(),
        ensures
            final(self).follows(old(self)),
            expr_parsed(r, final(self).cursor()) == old(self).grammar().function(
                old(self).cursor(),
            ),
        decreases old(self).left(), 7int,
    {
        proof {
            reveal(Grammar::function);
            reveal(Grammar::parameters);
            reveal(Grammar::block);
        }
        proof {
            self.lemma_left();
        }
        if self.kind() != TokenKind::LeftParen {
            self.fail("Expect '(' after function");
            return None;
        }
        self.next();
        proof {
            self.lemma_left();
        }
        match self.parameters() {
            None => None,
            Some(params) => match self.block("Expect '{' before function body") {
                Some(body) => Some(ExprType::Function { params, body }),
                None => None,
            },
        }
    }

    /// After `(`: the names of the parameters, up to and including `)`.
    pub(super) fn parameters(&mut self) -> (r: Option<Vec<Ident>>)
        requires
            old(self).wf(),
        ensures
            final(self).follows(old(self)),
            (Parsed {
                value: match r {
                    Some(ps) => Some(idents_view(ps@)),
                    None => None,
                },
                cursor: final(self).cursor(),
            }) == old(self).grammar().parameters(old(self).cursor(), Seq::empty()),
    {
        proof {
            reveal(Grammar::parameters);
        }
        let mut acc: Vec<Ident> = Vec::new();
        let ghost g = self.grammar();
        assert(idents_view(acc@) =~= Seq::empty());
        loop
            invariant
                old(self).wf(),
                self.follows(old(self)),
                g == self.grammar(),
                g.parameters(old(self).cursor(), Seq::empty()) == g.parameters(
                    self.cursor(),
                    idents_view(acc@),
                ),
            decreases self.left(),
        {
            proof {
                reveal(Grammar::parameters);
                self.lemma_left();
            }
            if self.kind() == TokenKind::RightParen {
                self.next();
                return Some(acc);
            }
            match self.parse_ident() {
                None => {
                    self.fail("Expect identifier");
                    return None;
                },
                Some(name) => {
                    proof {
                        lemma_idents_push(acc@, name);
                    }
                    acc.push(name);
                    self.next();
                    if self.kind() == TokenKind::Comma {
                        self.next();
                    }
                },
            }
        }
    }

    /// After `return`.
    pub(super) fn return_statement(&mut self) -> (r: Option<Stmt>)
        requires
            old(self).wf(),
        ensures
            final(self).follows(old(self)),
            stmt_parsed(r, final(self).cursor()) == old(self).grammar().return_statement(
                old(self).cursor(),
            ),
        decreases old(self).left(), 7int,
    {
        proof {
            reveal(Grammar::return_statement);
            reveal(Grammar::expression);
        }
        match self.expression(Precedence::Lowest) {
            None => None,
            Some(e) => {
                if self.kind() != TokenKind::Semicolon {
                    self.fail("Expect ';' after return");
                    return None;
                }
                self.next();
                Some(Stmt::Return(e))
            },
        }
    }

    /// After `var`.
    pub(super) fn var_statement(&mut self) -> (r: Option<Stmt>)
        requires
            old(self).wf(),
        ensures
            final(self).follows(old(self)),
            stmt_parsed(r, final(self).cursor()) == old(self).grammar().var_statement(
                old(self).cursor(),
            ),
        decreases old(self).left(), 7int,
    {
        proof {
            reveal(Grammar::var_statement);
            reveal(Grammar::expression);
        }
        proof {
            self.lemma_left();
        }
        match self.parse_ident() {
            None => {
                self.fail("Expect variable name");
                None
            },
            Some(name) => {
                self.next();
                proof {
                    self.lemma_left();
                }
                let kind = self.kind();
                if kind == TokenKind::Semicolon {
                    self.next();
                    return Some(Stmt::Var(name, ExprType::nil()));
                }
                if kind == TokenKind::In {
                    return Some(Stmt::Var(name, ExprType::nil()));
                }
                if kind != TokenKind::Equal {
                    self.fail("Expect '=' after variable name");
                    return None;
                }
                self.next();
                proof {
                    self.lemma_left();
                }
                match self.expression(Precedence::Lowest) {
                    None => None,
                    Some(e) => {
                        if self.kind() != TokenKind::Semicolon {
                            self.fail("Expect ';' after variable declaration");
                            return None;
                        }
                        self.next();
                        Some(Stmt::Var(name, e))
                    },
                }
            },
        }
    }

    /// After `class`.
    #[verifier::rlimit(50)]
    pub(super) fn class_statement(&mut self) -> (r: Option<Stmt>)
        requires
            old(self).wf(),
        ensures
            final(self).follows(old(self)),
            stmt_parsed(r, final(self).cursor()) == old(self).grammar().class_statement(
                old(self).cursor(),
            ),
        decreases old(self).left(), 7int,
    {
        proof {
            reveal(Grammar::class_statement);
            reveal(Grammar::members);
        }
        proof {
            self.lemma_left();
        }
        match self.parse_ident() {
            None => {
                self.fail("Expect class name");
                None
            },
            Some(name) => {
                self.next();
                proof {
                    self.lemma_left();
                }
                if self.kind() != TokenKind::LeftBrace {
                    self.fail("Expect '{' after class name");
                    return None;
                }
                self.next();
                proof {
                    self.lemma_left();
                }
                match self.members() {
                    Some(properties) => Some(Stmt::ClassStmt { name, properties }),
                    None => None,
                }
            },
        }
    }

    /// The members of a class, up to and including its right brace.
    pub(super) fn members(&mut self) -> (r: Option<Vec<Stmt>>)
        requires
            old(self).wf(),
        ensures
            final(self).follows(old(self)),
            block_parsed(r, final(self).cursor()) == old(self).grammar().members(
                old(self).cursor(),
                Seq::empty(),
            ),
        decreases old(self).left(), 9int,
    {
        proof {
            reveal(Grammar::members);
            reveal(Grammar::var_statement);
            reveal(Grammar::function_statement);
            reveal(Grammar::function);
        }
        let mut acc: Vec<Stmt> = Vec::new();
        let ghost g = self.grammar();
        loop
            invariant
                old(self).wf(),
                self.follows(old(self)),
                g == self.grammar(),
                g.members(old(self).cursor(), Seq::empty()) == g.members(
                    self.cursor(),
                    stmts_view(acc@),
                ),
            decreases self.left(),
        {
            proof {
                reveal(Grammar::members);
                reveal(Grammar::var_statement);
                reveal(Grammar::function_statement);
                reveal(Grammar::function);
                self.lemma_left();
                old(self).lemma_left();
            }
            let member = match self.kind() {
                TokenKind::RightBrace => {
                    self.next();
                    return Some(acc);
                },
                TokenKind::Var => {
                    self.next();
                    proof {
                        self.lemma_left();
                    }
                    self.var_statement()
                },
                TokenKind::Fun => {
                    self.next();
                    proof {
                        self.lemma_left();
                    }
                    self.function_statement()
                },
                TokenKind::Identifier => {
                    let name = Ident(self.text());
                    self.next();
                    proof {
                        self.lemma_left();
                    }
                    match self.function() {
                        Some(ExprType::Function { params, body }) => Some(
                            Stmt::Function(name, params, body),
                        ),
                        _ => None,
                    }
                },
                _ => {
                    self.fail("Expect class member");
                    return None;
                },
            };
            match member {
                None => {
                    return None;
                },
                Some(s) => {
                    proof {
                        lemma_stmts_push(acc@, s);
                    }
                    acc.push(s);
                },
            }
        }
    }

    /// After `import`.
    pub(super) fn import_statement(&mut self) -> (r: Option<Stmt>)
        requires
            old(self).wf(),
        ensures
            final(self).follows(old(self)),
            stmt_parsed(r, final(self).cursor()) == old(self).grammar().import_statement(
                old(self).cursor(),
            ),
    {
        proof {
            reveal(Grammar::import_statement);
        }
        if self.kind() != TokenKind::String {
            self.fail("Expect string after import");
            return None;
        }
        let name = self.text();
        self.next();
        if self.kind() != TokenKind::Semicolon {
            self.fail("Expect ';' after import");
            return None;
        }
        self.next();
        Some(Stmt::Import(name))
    }
}

} // verus!
