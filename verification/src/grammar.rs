//! The grammar: what the parser makes of a source, as a function.
//!
//! The parser reads tokens from the lexer as it goes, two ahead of the one
//! it looks at, so the diagnostics of lexer and parser come in the order in
//! which the text is read. The grammar states this over the steps of the
//! lexer and a cursor into them.

use crate::ast::{ExprView, LiteralView, Precedence, StmtView};
use crate::lexer::{blamed_text, syntax_error, Scanned};
use crate::number::Number;
use crate::token::{TokenKind, TokenView};
use vstd::prelude::*;

pub mod laws;

verus! {

/// Where the parser stands.
pub struct Cursor {
    /// The index of the current token among the steps of the lexer.
    pub at: int,
    /// The token before the current one.
    pub prev: TokenView,
    /// The diagnostics so far, of lexer and parser, oldest first.
    pub errors: Seq<Seq<char>>,
}

/// What a rule of the grammar gives: a value unless a token was not the
/// expected one, and the cursor after what was read.
pub struct Parsed<T> {
    pub value: Option<T>,
    pub cursor: Cursor,
}

/// What a run of statements gives.
pub struct Listed {
    pub items: Seq<StmtView>,
    pub cursor: Cursor,
}

/// Where a run of statements stops.
pub enum Stop {
    /// At the end of the source.
    End,
    /// At a right brace.
    Brace,
    /// At a right brace, a `case` or a `default`.
    Case,
}

impl Stop {
    pub open spec fn at(self, kind: TokenKind) -> bool {
        match self {
            Stop::End => kind == TokenKind::Eof,
            Stop::Brace => kind == TokenKind::RightBrace,
            Stop::Case => kind == TokenKind::RightBrace || kind == TokenKind::Case || kind
                == TokenKind::Default,
        }
    }
}

/// How tightly a token binds the expression on its left when it stands
/// after it.
pub open spec fn precedence_of(kind: TokenKind) -> Precedence {
    match kind {
        TokenKind::And | TokenKind::Or => Precedence::And,
        TokenKind::EqualEqual | TokenKind::BangEqual | TokenKind::Equal => Precedence::Equals,
        TokenKind::Less | TokenKind::LessEqual | TokenKind::Greater | TokenKind::GreaterEqual =>
            Precedence::LessGreater,
        TokenKind::SlashSelf | TokenKind::StarSelf | TokenKind::ModSelf => Precedence::OpSelfMul,
        TokenKind::MinusSelf | TokenKind::PlusSelf => Precedence::OpSelfSum,
        TokenKind::Plus | TokenKind::Minus => Precedence::Plus,
        TokenKind::Star | TokenKind::Mod | TokenKind::Slash => Precedence::Star,
        TokenKind::LeftParen => Precedence::Call,
        TokenKind::LeftBracket => Precedence::Index,
        TokenKind::Dot => Precedence::Call,
        _ => Precedence::Lowest,
    }
}

/// The operators that stand between two operands.
pub open spec fn is_binary_operator(kind: TokenKind) -> bool {
    match kind {
        TokenKind::Star
        | TokenKind::Slash
        | TokenKind::Plus
        | TokenKind::Minus
        | TokenKind::EqualEqual
        | TokenKind::Equal
        | TokenKind::BangEqual
        | TokenKind::Less
        | TokenKind::LessEqual
        | TokenKind::Greater
        | TokenKind::GreaterEqual
        | TokenKind::And
        | TokenKind::Or
        | TokenKind::MinusSelf
        | TokenKind::PlusSelf
        | TokenKind::StarSelf
        | TokenKind::SlashSelf
        | TokenKind::ModSelf
        | TokenKind::Mod => true,
        _ => false,
    }
}

/// What may stand on the left of `=`.
pub open spec fn is_assignable(e: ExprView) -> bool {
    e is Ident || e is ThisExpr || e is IndexExpr
}

/// Expressions that end the expression they start: nothing that follows
/// them on the line is taken as an operator on them.
pub open spec fn is_closed(e: ExprView) -> bool {
    e is PrintExpr || e is ThisCall
}

pub open spec fn none<T>(cursor: Cursor) -> Parsed<T> {
    Parsed { value: None, cursor }
}

pub open spec fn some<T>(value: T, cursor: Cursor) -> Parsed<T> {
    Parsed { value: Some(value), cursor }
}

/// `p`, with its cursor no further back than `from`.
pub open spec fn after<T>(from: Cursor, p: Parsed<T>) -> Parsed<T> {
    if p.cursor.at >= from.at {
        p
    } else {
        Parsed { value: p.value, cursor: Cursor { at: from.at, ..p.cursor } }
    }
}

/// `l`, with its cursor no further back than `from`.
pub open spec fn listed_after(from: Cursor, l: Listed) -> Listed {
    if l.cursor.at >= from.at {
        l
    } else {
        Listed { items: l.items, cursor: Cursor { at: from.at, ..l.cursor } }
    }
}

/// A source as the parser sees it.
pub struct Grammar {
    pub source: Seq<char>,
    /// The steps of the lexer over the source, comments left out.
    pub steps: Seq<Scanned>,
    /// The number that a number token's text denotes.
    pub numbers: spec_fn(Seq<char>) -> Number,
}

impl Grammar {
    /// The `i`-th token; past the last one, `Eof` again.
    pub open spec fn token(self, i: int) -> TokenView {
        if 0 <= i < self.steps.len() {
            self.steps[i].token
        } else {
            TokenView::fixed(TokenKind::Eof)
        }
    }

    /// The kind of the current token.
    pub open spec fn kind(self, c: Cursor) -> TokenKind {
        self.token(c.at).kind
    }

    /// The text of the current token.
    pub open spec fn text(self, c: Cursor) -> Seq<char> {
        self.token(c.at).text
    }

    /// The kind of the token after the current one.
    pub open spec fn next_kind(self, c: Cursor) -> TokenKind {
        self.token(c.at + 1).kind
    }

    /// How many tokens are left, the current one counted.
    pub open spec fn left(self, c: Cursor) -> nat {
        if c.at < self.steps.len() {
            (self.steps.len() - c.at) as nat
        } else {
            0
        }
    }

    /// The diagnostics that the lexer raises when it reads the `i`-th
    /// token.
    pub open spec fn raised(self, i: int) -> Seq<Seq<char>> {
        if 0 <= i < self.steps.len() {
            self.steps[i].errors
        } else {
            Seq::empty()
        }
    }

    /// How far the lexer has read when the parser stands at `c`: to the
    /// end of the token after the current one.
    pub open spec fn read_to(self, c: Cursor) -> int {
        if 0 <= c.at + 1 < self.steps.len() {
            self.steps[c.at + 1].end
        } else {
            self.source.len() as int
        }
    }

    /// The cursor at the start: the first two tokens read.
    pub open spec fn start(self) -> Cursor {
        Cursor {
            at: 0,
            prev: TokenView::fixed(TokenKind::Eof),
            errors: self.raised(0) + self.raised(1),
        }
    }

    /// The cursor after the current token. At `Eof` it stays.
    pub open spec fn advance(self, c: Cursor) -> Cursor {
        if self.kind(c) == TokenKind::Eof {
            Cursor { prev: self.token(c.at), ..c }
        } else {
            Cursor {
                at: c.at + 1,
                prev: self.token(c.at),
                errors: c.errors + self.raised(c.at + 2),
            }
        }
    }

    /// The cursor after the current token if it is a comma, else `c`.
    pub open spec fn skip_comma(self, c: Cursor) -> Cursor {
        if self.kind(c) == TokenKind::Comma {
            self.advance(c)
        } else {
            c
        }
    }

    /// The cursor with one more diagnostic, about the current token.
    pub open spec fn fail(self, c: Cursor, message: Seq<char>) -> Cursor {
        Cursor {
            errors: c.errors.push(
                syntax_error(
                    self.source,
                    self.read_to(c),
                    blamed_text(self.token(c.at)),
                    message,
                ),
            ),
            ..c
        }
    }

    /// The name that the current token is, if it is an identifier.
    pub open spec fn ident(self, c: Cursor) -> Option<Seq<char>> {
        if self.kind(c) == TokenKind::Identifier {
            Some(self.text(c))
        } else {
            None
        }
    }

    /// The whole program: statements up to the end of the source, or up to
    /// the first that cannot be read.
    pub open spec fn program(self) -> Listed {
        self.statements(self.start(), Seq::empty(), Stop::End)
    }

    /// Statements from `c` up to the token `stop` stops at, or to the first
    /// statement that cannot be read, added to `acc`.
    #[verifier::opaque]
    pub open spec fn statements(self, c: Cursor, acc: Seq<StmtView>, stop: Stop) -> Listed
        decreases self.left(c), 9int,
    {
        if stop.at(self.kind(c)) {
            Listed { items: acc, cursor: c }
        } else {
            let p = after(c, self.statement(c));
            match p.value {
                Some(s) => if self.left(p.cursor) < self.left(c) {
                    self.statements(p.cursor, acc.push(s), stop)
                } else {
                    Listed { items: acc.push(s), cursor: p.cursor }
                },
                None => Listed { items: acc, cursor: p.cursor },
            }
        }
    }

    /// One statement.
    #[verifier::opaque]
    pub open spec fn statement(self, c: Cursor) -> Parsed<StmtView>
        decreases self.left(c), 8int,
    {
        match self.kind(c) {
            TokenKind::Eof => none(c),
            TokenKind::Fun => self.function_statement(self.advance(c)),
            TokenKind::Import => self.import_statement(self.advance(c)),
            TokenKind::Return => self.return_statement(self.advance(c)),
            TokenKind::Var => self.var_statement(self.advance(c)),
            TokenKind::Switch => self.switch_statement(self.advance(c)),
            TokenKind::While => self.while_statement(self.advance(c)),
            TokenKind::Class => self.class_statement(self.advance(c)),
            TokenKind::For => self.for_statement(self.advance(c)),
            TokenKind::Assert => self.assert_statement(self.advance(c)),
            TokenKind::LeftBrace => {
                let b = self.block(c, "Expect '{' before block"@);
                match b.value {
                    Some(body) => some(StmtView::Block(body), b.cursor),
                    None => none(b.cursor),
                }
            },
            _ => self.expression_statement(c),
        }
    }

    /// `{ Stmt* }`. `message` is what is raised where the left brace is
    /// missing.
    #[verifier::opaque]
    pub open spec fn block(self, c: Cursor, message: Seq<char>) -> Parsed<Seq<StmtView>>
        decreases self.left(c), 7int,
    {
        if self.kind(c) != TokenKind::LeftBrace {
            none(self.fail(c, message))
        } else {
            let c1 = self.advance(c);
            let body = listed_after(c1, self.statements(c1, Seq::empty(), Stop::Brace));
            if self.kind(body.cursor) != TokenKind::RightBrace {
                none(self.fail(body.cursor, "Expect '}' after block"@))
            } else {
                some(body.items, self.advance(body.cursor))
            }
        }
    }

    /// An expression as a statement, with the semicolon after it if there
    /// is one.
    #[verifier::opaque]
    pub open spec fn expression_statement(self, c: Cursor) -> Parsed<StmtView>
        decreases self.left(c), 7int,
    {
        let p = after(c, self.expression(c, Precedence::Lowest));
        match p.value {
            Some(e) => some(
                StmtView::Expr(e),
                if self.kind(p.cursor) == TokenKind::Semicolon {
                    self.advance(p.cursor)
                } else {
                    p.cursor
                },
            ),
            None => none(p.cursor),
        }
    }

    /// After `fun`: `IDENT (params) BLOCK`.
    #[verifier::opaque]
    pub open spec fn function_statement(self, c: Cursor) -> Parsed<StmtView>
        decreases self.left(c), 7int,
    {
        match self.ident(c) {
            None => none(self.fail(c, "Expect function name"@)),
            Some(name) => {
                let f = self.function(self.advance(c));
                match f.value {
                    Some(ExprView::Function { params, body }) => some(
                        StmtView::Function(name, params, body),
                        f.cursor,
                    ),
                    _ => none(f.cursor),
                }
            },
        }
    }

    /// After `fun` or a function's name: `(params) BLOCK`.
    #[verifier::opaque]
    pub open spec fn function(self, c: Cursor) -> Parsed<ExprView>
        decreases self.left(c), 7int,
    {
        if self.kind(c) != TokenKind::LeftParen {
            none(self.fail(c, "Expect '(' after function"@))
        } else {
            let c1 = self.advance(c);
            let ps = after(c1, self.parameters(c1, Seq::empty()));
            match ps.value {
                None => none(ps.cursor),
                Some(params) => {
                    let b = self.block(ps.cursor, "Expect '{' before function body"@);
                    match b.value {
                        Some(body) => some(ExprView::Function { params, body }, b.cursor),
                        None => none(b.cursor),
                    }
                },
            }
        }
    }

    /// After `(`: names, with or without commas between them, up to and
    /// including `)`.
    #[verifier::opaque]
    pub open spec fn parameters(self, c: Cursor, acc: Seq<Seq<char>>) -> Parsed<Seq<Seq<char>>>
        decreases self.left(c), 9int,
    {
        if self.kind(c) == TokenKind::RightParen {
            some(acc, self.advance(c))
        } else {
            match self.ident(c) {
                None => none(self.fail(c, "Expect identifier"@)),
                Some(name) => self.parameters(
                    self.skip_comma(self.advance(c)),
                    acc.push(name),
                ),
            }
        }
    }

    /// After `import`: `"name" ;`.
    #[verifier::opaque]
    pub open spec fn import_statement(self, c: Cursor) -> Parsed<StmtView> {
        if self.kind(c) != TokenKind::String {
            none(self.fail(c, "Expect string after import"@))
        } else {
            let c1 = self.advance(c);
            if self.kind(c1) != TokenKind::Semicolon {
                none(self.fail(c1, "Expect ';' after import"@))
            } else {
                some(StmtView::Import(self.text(c)), self.advance(c1))
            }
        }
    }

    /// After `return`: `EXPR ;`.
    #[verifier::opaque]
    pub open spec fn return_statement(self, c: Cursor) -> Parsed<StmtView>
        decreases self.left(c), 7int,
    {
        let p = after(c, self.expression(c, Precedence::Lowest));
        match p.value {
            None => none(p.cursor),
            Some(e) => if self.kind(p.cursor) != TokenKind::Semicolon {
                none(self.fail(p.cursor, "Expect ';' after return"@))
            } else {
                some(StmtView::Return(e), self.advance(p.cursor))
            },
        }
    }

    /// After `var`: `IDENT ( = EXPR )? ;`, or `IDENT` before `in`. Without
    /// an initializer the variable is bound to nil.
    #[verifier::opaque]
    pub open spec fn var_statement(self, c: Cursor) -> Parsed<StmtView>
        decreases self.left(c), 7int,
    {
        match self.ident(c) {
            None => none(self.fail(c, "Expect variable name"@)),
            Some(name) => {
                let c1 = self.advance(c);
                let nil = ExprView::Literal(LiteralView::Nil);
                if self.kind(c1) == TokenKind::Semicolon {
                    some(StmtView::Var(name, nil), self.advance(c1))
                } else if self.kind(c1) == TokenKind::In {
                    some(StmtView::Var(name, nil), c1)
                } else if self.kind(c1) != TokenKind::Equal {
                    none(self.fail(c1, "Expect '=' after variable name"@))
                } else {
                    let c2 = self.advance(c1);
                    let p = after(c2, self.expression(c2, Precedence::Lowest));
                    match p.value {
                        None => none(p.cursor),
                        Some(e) => if self.kind(p.cursor) != TokenKind::Semicolon {
                            none(self.fail(p.cursor, "Expect ';' after variable declaration"@))
                        } else {
                            some(StmtView::Var(name, e), self.advance(p.cursor))
                        },
                    }
                }
            },
        }
    }

    /// After `switch`: `EXPR { (case EXPR: Stmt*)* (default: Stmt*)? }`.
    #[verifier::opaque]
    pub open spec fn switch_statement(self, c: Cursor) -> Parsed<StmtView>
        decreases self.left(c), 7int,
    {
        let p = after(c, self.expression(c, Precedence::Lowest));
        match p.value {
            None => none(p.cursor),
            Some(subject) => if self.kind(p.cursor) != TokenKind::LeftBrace {
                none(self.fail(p.cursor, "Expect '{' after switch"@))
            } else {
                let c1 = self.advance(p.cursor);
                let cs = after(c1, self.cases(c1, Seq::empty()));
                match cs.value {
                    None => none(cs.cursor),
                    Some(cases) => {
                        let d = if self.kind(cs.cursor) == TokenKind::Default {
                            let c2 = self.advance(cs.cursor);
                            let a = after(c2, self.default_arm(c2));
                            match a.value {
                                Some(arm) => some(cases.push(arm), a.cursor),
                                None => none(a.cursor),
                            }
                        } else {
                            some(cases, cs.cursor)
                        };
                        match d.value {
                            None => none(d.cursor),
                            Some(arms) => if self.kind(d.cursor) != TokenKind::RightBrace {
                                none(self.fail(d.cursor, "Expect '}' after switch"@))
                            } else {
                                some(StmtView::Switch(subject, arms), self.advance(d.cursor))
                            },
                        }
                    },
                }
            },
        }
    }

    /// The `case` arms of a switch, added to `acc`.
    #[verifier::opaque]
    pub open spec fn cases(self, c: Cursor, acc: Seq<StmtView>) -> Parsed<Seq<StmtView>>
        decreases self.left(c), 9int,
    {
        if self.kind(c) != TokenKind::Case {
            some(acc, c)
        } else {
            let c1 = self.advance(c);
            let p = after(c1, self.expression(c1, Precedence::Lowest));
            match p.value {
                None => none(p.cursor),
                Some(e) => if self.kind(p.cursor) != TokenKind::Colon {
                    none(self.fail(p.cursor, "Expect Colon"@))
                } else {
                    let c2 = self.advance(p.cursor);
                    let body = listed_after(c2, self.statements(c2, Seq::empty(), Stop::Case));
                    self.cases(body.cursor, acc.push(StmtView::Case(e, body.items)))
                },
            }
        }
    }

    /// After `default`: `: Stmt*`, the last arm of a switch.
    #[verifier::opaque]
    pub open spec fn default_arm(self, c: Cursor) -> Parsed<StmtView>
        decreases self.left(c), 10int,
    {
        if self.kind(c) != TokenKind::Colon {
            none(self.fail(c, "Expect Colon"@))
        } else {
            let c1 = self.advance(c);
            let body = listed_after(c1, self.statements(c1, Seq::empty(), Stop::Case));
            some(StmtView::Default(body.items), body.cursor)
        }
    }

    /// After `while`: `(EXPR) BLOCK`.
    #[verifier::opaque]
    pub open spec fn while_statement(self, c: Cursor) -> Parsed<StmtView>
        decreases self.left(c), 7int,
    {
        if self.kind(c) != TokenKind::LeftParen {
            none(self.fail(c, "Expect '(' after while"@))
        } else {
            let c1 = self.advance(c);
            let p = after(c1, self.expression(c1, Precedence::Lowest));
            match p.value {
                None => none(p.cursor),
                Some(e) => if self.kind(p.cursor) != TokenKind::RightParen {
                    none(self.fail(p.cursor, "Expect ')' after while condition"@))
                } else {
                    let b = self.block(
                        self.advance(p.cursor),
                        "Expect '{' after while condition"@,
                    );
                    match b.value {
                        Some(body) => some(StmtView::While(e, body), b.cursor),
                        None => none(b.cursor),
                    }
                },
            }
        }
    }

    /// After `class`: `IDENT { member* }`.
    #[verifier::opaque]
    pub open spec fn class_statement(self, c: Cursor) -> Parsed<StmtView>
        decreases self.left(c), 7int,
    {
        match self.ident(c) {
            None => none(self.fail(c, "Expect class name"@)),
            Some(name) => {
                let c1 = self.advance(c);
                if self.kind(c1) != TokenKind::LeftBrace {
                    none(self.fail(c1, "Expect '{' after class name"@))
                } else {
                    let m = self.members(self.advance(c1), Seq::empty());
                    match m.value {
                        Some(properties) => some(
                            StmtView::ClassStmt { name, properties },
                            m.cursor,
                        ),
                        None => none(m.cursor),
                    }
                }
            },
        }
    }

    /// The members of a class up to and including its right brace: `var`
    /// statements and functions, a function written with or without `fun`
    /// before its name.
    #[verifier::opaque]
    pub open spec fn members(self, c: Cursor, acc: Seq<StmtView>) -> Parsed<Seq<StmtView>>
        decreases self.left(c), 9int,
    {
        let p = match self.kind(c) {
            TokenKind::Var => {
                let c1 = self.advance(c);
                after(c1, self.var_statement(c1))
            },
            TokenKind::Fun => {
                let c1 = self.advance(c);
                after(c1, self.function_statement(c1))
            },
            TokenKind::Identifier => {
                let c1 = self.advance(c);
                let f = after(c1, self.function(c1));
                match f.value {
                    Some(ExprView::Function { params, body }) => some(
                        StmtView::Function(self.text(c), params, body),
                        f.cursor,
                    ),
                    _ => none(f.cursor),
                }
            },
            _ => none(c),
        };
        if self.kind(c) == TokenKind::RightBrace {
            some(acc, self.advance(c))
        } else if self.kind(c) != TokenKind::Var && self.kind(c) != TokenKind::Fun && self.kind(c)
            != TokenKind::Identifier {
            none(self.fail(c, "Expect class member"@))
        } else {
            match p.value {
                None => none(p.cursor),
                Some(s) => self.members(p.cursor, acc.push(s)),
            }
        }
    }

    /// After `for`: `( var ... ; EXPR ; EXPR ) BLOCK`, or
    /// `( var IDENT in EXPR ) BLOCK`.
    #[verifier::opaque]
    pub open spec fn for_statement(self, c: Cursor) -> Parsed<StmtView>
        decreases self.left(c), 7int,
    {
        if self.kind(c) != TokenKind::LeftParen {
            none(self.fail(c, "Expect '(' after for"@))
        } else {
            let c1 = self.advance(c);
            if self.kind(c1) != TokenKind::Var {
                none(self.fail(c1, "Expect var after for"@))
            } else {
                let c2 = self.advance(c1);
                let v = after(c2, self.var_statement(c2));
                match v.value {
                    None => none(v.cursor),
                    Some(init) => if self.kind(v.cursor) == TokenKind::In {
                        self.for_in(self.advance(v.cursor), init)
                    } else {
                        self.for_steps(v.cursor, init)
                    },
                }
            }
        }
    }

    /// After `in`: `EXPR ) BLOCK`.
    #[verifier::opaque]
    pub open spec fn for_in(self, c: Cursor, var: StmtView) -> Parsed<StmtView>
        decreases self.left(c), 7int,
    {
        let p = after(c, self.expression(c, Precedence::Lowest));
        match p.value {
            None => none(p.cursor),
            Some(iter) => if self.kind(p.cursor) != TokenKind::RightParen {
                none(self.fail(p.cursor, "Expect ')' after for condition"@))
            } else {
                let b = self.block(self.advance(p.cursor), "Expect '{' before block"@);
                match b.value {
                    Some(block) => some(
                        StmtView::ForIn { var: Box::new(var), iter: Box::new(iter), block },
                        b.cursor,
                    ),
                    None => none(b.cursor),
                }
            },
        }
    }

    /// After the initializer of a `for`: `EXPR ; EXPR ) BLOCK`.
    #[verifier::opaque]
    pub open spec fn for_steps(self, c: Cursor, init: StmtView) -> Parsed<StmtView>
        decreases self.left(c), 7int,
    {
        let p = after(c, self.expression(c, Precedence::Lowest));
        match p.value {
            None => none(p.cursor),
            Some(conditions) => if self.kind(p.cursor) != TokenKind::Semicolon {
                none(self.fail(p.cursor, "Expect ';' after for condition"@))
            } else {
                let c1 = self.advance(p.cursor);
                let q = after(c1, self.expression(c1, Precedence::Lowest));
                match q.value {
                    None => none(q.cursor),
                    Some(step) => if self.kind(q.cursor) != TokenKind::RightParen {
                        none(self.fail(q.cursor, "Expect ')' after for condition"@))
                    } else {
                        let b = self.block(self.advance(q.cursor), "Expect '{' before block"@);
                        match b.value {
                            Some(block) => some(
                                StmtView::For {
                                    init: Box::new(init),
                                    conditions: Box::new(conditions),
                                    step: Box::new(StmtView::Expr(step)),
                                    block,
                                },
                                b.cursor,
                            ),
                            None => none(b.cursor),
                        }
                    },
                }
            },
        }
    }

    /// After `assert`: `EXPR (, "msg")? ;`. Without a message the message
    /// is the empty string.
    #[verifier::opaque]
    pub open spec fn assert_statement(self, c: Cursor) -> Parsed<StmtView>
        decreases self.left(c), 7int,
    {
        let p = after(c, self.expression(c, Precedence::Lowest));
        match p.value {
            None => none(p.cursor),
            Some(condition) => if self.kind(p.cursor) == TokenKind::Comma {
                let c1 = self.advance(p.cursor);
                if self.kind(c1) != TokenKind::String {
                    none(self.fail(c1, "Expect string after ','"@))
                } else {
                    let c2 = self.advance(c1);
                    if self.kind(c2) != TokenKind::Semicolon {
                        none(self.fail(c2, "Expect ';' after assert message"@))
                    } else {
                        some(
                            StmtView::Assert {
                                condition: Box::new(condition),
                                message: Box::new(
                                    ExprView::Literal(LiteralView::String(self.text(c1))),
                                ),
                            },
                            self.advance(c2),
                        )
                    }
                }
            } else if self.kind(p.cursor) != TokenKind::Semicolon {
                none(self.fail(p.cursor, "Expect ';' after assert"@))
            } else {
                some(
                    StmtView::Assert {
                        condition: Box::new(condition),
                        message: Box::new(ExprView::Literal(LiteralView::String(Seq::empty()))),
                    },
                    self.advance(p.cursor),
                )
            },
        }
    }

    /// An expression whose operators all bind tighter than `min`.
    #[verifier::opaque]
    pub open spec fn expression(self, c: Cursor, min: Precedence) -> Parsed<ExprView>
        decreases self.left(c), 6int,
    {
        let p = after(c, self.operand(c));
        match p.value {
            None => none(p.cursor),
            Some(left) => if is_closed(left) {
                p
            } else {
                self.operators(p.cursor, left, min)
            },
        }
    }

    /// What an expression starts with: a literal, a name, a grouping, a
    /// prefix operator and its operand, `new`, `this`, `if`, `fun` or
    /// `print`.
    #[verifier::opaque]
    pub open spec fn operand(self, c: Cursor) -> Parsed<ExprView>
        decreases self.left(c), 5int,
    {
        match self.kind(c) {
            TokenKind::Bang | TokenKind::Plus | TokenKind::Minus => {
                let c1 = self.advance(c);
                let p = after(c1, self.expression(c1, Precedence::Prefix));
                match p.value {
                    Some(right) => some(
                        ExprView::PrefixExpr(self.token(c.at), Box::new(right)),
                        p.cursor,
                    ),
                    None => none(self.fail(p.cursor, "Expect expression"@)),
                }
            },
            TokenKind::LeftParen => {
                let c1 = self.advance(c);
                let p = after(c1, self.expression(c1, Precedence::Lowest));
                if self.kind(p.cursor) != TokenKind::RightParen {
                    none(self.fail(p.cursor, "Expect expression"@))
                } else {
                    let c2 = self.advance(p.cursor);
                    match p.value {
                        Some(e) => some(ExprView::GroupingExpr(Box::new(e)), c2),
                        None => none(self.fail(c2, "Expect expression"@)),
                    }
                }
            },
            TokenKind::Number => some(
                ExprView::Literal(LiteralView::Number((self.numbers)(self.text(c)))),
                self.advance(c),
            ),
            TokenKind::Identifier => some(ExprView::Ident(self.text(c)), self.advance(c)),
            TokenKind::True => some(ExprView::Literal(LiteralView::Bool(true)), self.advance(c)),
            TokenKind::False => some(ExprView::Literal(LiteralView::Bool(false)), self.advance(c)),
            TokenKind::String => some(
                ExprView::Literal(LiteralView::String(self.text(c))),
                self.advance(c),
            ),
            TokenKind::Nil => some(ExprView::Literal(LiteralView::Nil), self.advance(c)),
            TokenKind::LeftBracket => {
                let a = self.items(self.advance(c), Seq::empty(), TokenKind::RightBracket);
                match a.value {
                    Some(elements) => some(
                        ExprView::Literal(LiteralView::Array(elements)),
                        a.cursor,
                    ),
                    None => none(a.cursor),
                }
            },
            TokenKind::LeftBrace => {
                let h = self.entries(self.advance(c), Seq::empty());
                match h.value {
                    Some(pairs) => some(ExprView::Literal(LiteralView::Hash(pairs)), h.cursor),
                    None => none(h.cursor),
                }
            },
            TokenKind::New => self.new_operand(self.advance(c)),
            TokenKind::This => self.this_operand(self.advance(c)),
            TokenKind::If => self.if_operand(self.advance(c)),
            TokenKind::Fun => self.function(self.advance(c)),
            TokenKind::Print => {
                let a = self.print_items(self.advance(c), Seq::empty());
                match a.value {
                    Some(exprs) => some(ExprView::PrintExpr(exprs), a.cursor),
                    None => none(a.cursor),
                }
            },
            _ => none(self.fail(c, "Expect expression"@)),
        }
    }

    /// Expressions, with or without commas between them, up to and
    /// including the token of kind `close`, added to `acc`.
    #[verifier::opaque]
    pub open spec fn items(self, c: Cursor, acc: Seq<ExprView>, close: TokenKind) -> Parsed<
        Seq<ExprView>,
    >
        decreases self.left(c), 9int,
    {
        if self.kind(c) == close {
            some(acc, self.advance(c))
        } else {
            let p = after(c, self.expression(c, Precedence::Lowest));
            match p.value {
                None => none(p.cursor),
                Some(e) => {
                    let c1 = self.skip_comma(p.cursor);
                    if self.left(c1) < self.left(c) {
                        self.items(c1, acc.push(e), close)
                    } else {
                        none(c1)
                    }
                },
            }
        }
    }

    /// After `print`: expressions, with or without commas between them,
    /// up to a semicolon, which is left where it is.
    #[verifier::opaque]
    pub open spec fn print_items(self, c: Cursor, acc: Seq<ExprView>) -> Parsed<Seq<ExprView>>
        decreases self.left(c), 9int,
    {
        if self.kind(c) == TokenKind::Semicolon {
            some(acc, c)
        } else {
            let p = after(c, self.expression(c, Precedence::Lowest));
            match p.value {
                None => none(p.cursor),
                Some(e) => {
                    let c1 = self.skip_comma(p.cursor);
                    if self.left(c1) < self.left(c) {
                        self.print_items(c1, acc.push(e))
                    } else {
                        none(c1)
                    }
                },
            }
        }
    }

    /// After `{`: `key : value` pairs, with or without commas between
    /// them, up to and including `}`.
    #[verifier::opaque]
    pub open spec fn entries(self, c: Cursor, acc: Seq<(ExprView, ExprView)>) -> Parsed<
        Seq<(ExprView, ExprView)>,
    >
        decreases self.left(c), 9int,
    {
        if self.kind(c) == TokenKind::RightBrace {
            some(acc, self.advance(c))
        } else {
            let k = after(c, self.expression(c, Precedence::Lowest));
            match k.value {
                None => none(k.cursor),
                Some(key) => if self.kind(k.cursor) != TokenKind::Colon {
                    none(self.fail(k.cursor, "Expect ':' after hash key"@))
                } else {
                    let c1 = self.advance(k.cursor);
                    let v = after(c1, self.expression(c1, Precedence::Lowest));
                    match v.value {
                        None => none(v.cursor),
                        Some(value) => self.entries(
                            self.skip_comma(v.cursor),
                            acc.push((key, value)),
                        ),
                    }
                },
            }
        }
    }

    /// After `new`: `IDENT (args)`.
    #[verifier::opaque]
    pub open spec fn new_operand(self, c: Cursor) -> Parsed<ExprView>
        decreases self.left(c), 7int,
    {
        match self.ident(c) {
            None => none(self.fail(c, "Expect class name"@)),
            Some(name) => {
                let c1 = self.advance(c);
                if self.kind(c1) != TokenKind::LeftParen {
                    none(self.fail(c1, "Expect '(' after new"@))
                } else {
                    let a = self.items(self.advance(c1), Seq::empty(), TokenKind::RightParen);
                    match a.value {
                        Some(args) => some(ExprView::ClassInit { name, args }, a.cursor),
                        None => none(a.cursor),
                    }
                }
            },
        }
    }

    /// After `this`: `. IDENT`, or `. IDENT (args)`.
    #[verifier::opaque]
    pub open spec fn this_operand(self, c: Cursor) -> Parsed<ExprView>
        decreases self.left(c), 7int,
    {
        if self.kind(c) != TokenKind::Dot {
            none(self.fail(c, "Expect '.' after this"@))
        } else {
            let c1 = self.advance(c);
            match self.ident(c1) {
                None => none(self.fail(c1, "Expect property name after '.'"@)),
                Some(name) => {
                    let c2 = self.advance(c1);
                    if self.kind(c2) != TokenKind::LeftParen {
                        some(ExprView::ThisExpr(name), c2)
                    } else {
                        let a = self.items(
                            self.advance(c2),
                            Seq::empty(),
                            TokenKind::RightParen,
                        );
                        match a.value {
                            Some(args) => some(
                                ExprView::ThisCall { method: name, args },
                                a.cursor,
                            ),
                            None => none(a.cursor),
                        }
                    }
                },
            }
        }
    }

    /// After `if`: `(EXPR) BLOCK (else if (EXPR) BLOCK)* (else BLOCK)?`.
    #[verifier::opaque]
    pub open spec fn if_operand(self, c: Cursor) -> Parsed<ExprView>
        decreases self.left(c), 7int,
    {
        if self.kind(c) != TokenKind::LeftParen {
            none(self.fail(c, "Expect '(' after if"@))
        } else {
            let c1 = self.advance(c);
            let p = after(c1, self.expression(c1, Precedence::Lowest));
            match p.value {
                None => none(p.cursor),
                Some(condition) => if self.kind(p.cursor) != TokenKind::RightParen {
                    none(self.fail(p.cursor, "Expect ')' after if condition"@))
                } else {
                    let c2 = self.advance(p.cursor);
                    let t = after(c2, self.block(c2, "Expect '{' before block"@));
                    match t.value {
                        None => none(t.cursor),
                        Some(then_branch) => {
                            let arms = after(t.cursor, self.else_ifs(t.cursor, Seq::empty()));
                            match arms.value {
                                None => none(arms.cursor),
                                Some(elseif) => if self.kind(arms.cursor) == TokenKind::Else {
                                    let e = self.block(
                                        self.advance(arms.cursor),
                                        "Expect '{' before block"@,
                                    );
                                    match e.value {
                                        None => none(e.cursor),
                                        Some(else_branch) => some(
                                            ExprView::If {
                                                condition: Box::new(condition),
                                                elseif,
                                                then_branch,
                                                else_branch,
                                            },
                                            e.cursor,
                                        ),
                                    }
                                } else {
                                    some(
                                        ExprView::If {
                                            condition: Box::new(condition),
                                            elseif,
                                            then_branch,
                                            else_branch: Seq::empty(),
                                        },
                                        arms.cursor,
                                    )
                                },
                            }
                        },
                    }
                },
            }
        }
    }

    /// The `else if (EXPR) BLOCK` arms of an `if`, added to `acc`.
    #[verifier::opaque]
    pub open spec fn else_ifs(self, c: Cursor, acc: Seq<(ExprView, Seq<StmtView>)>) -> Parsed<
        Seq<(ExprView, Seq<StmtView>)>,
    >
        decreases self.left(c), 9int,
    {
        if !(self.kind(c) == TokenKind::Else && self.next_kind(c) == TokenKind::If) {
            some(acc, c)
        } else {
            let c1 = self.advance(self.advance(c));
            if self.kind(c1) != TokenKind::LeftParen {
                none(self.fail(c1, "Expect '(' after if"@))
            } else {
                let c2 = self.advance(c1);
                let p = after(c2, self.expression(c2, Precedence::Lowest));
                match p.value {
                    None => none(p.cursor),
                    Some(condition) => if self.kind(p.cursor) != TokenKind::RightParen {
                        none(self.fail(p.cursor, "Expect ')' after if condition"@))
                    } else {
                        let c3 = self.advance(p.cursor);
                        let b = after(c3, self.block(c3, "Expect '{' before block"@));
                        match b.value {
                            None => none(b.cursor),
                            Some(body) => self.else_ifs(b.cursor, acc.push((condition, body))),
                        }
                    },
                }
            }
        }
    }

    /// The operators after the operand `left` that bind tighter than `min`,
    /// each with what it applies to: a right operand, the arguments of a
    /// call, an index, or a member.
    #[verifier::opaque]
    pub open spec fn operators(self, c: Cursor, left: ExprView, min: Precedence) -> Parsed<ExprView>
        decreases self.left(c), 4int,
    {
        let kind = self.kind(c);
        if kind == TokenKind::Semicolon || !(min.level() < precedence_of(kind).level()) {
            some(left, c)
        } else {
            let c1 = self.advance(c);
            let p = if is_binary_operator(kind) {
                after(c1, self.right_operand(c1, left, self.token(c.at)))
            } else if kind == TokenKind::LeftParen {
                let a = after(c1, self.items(c1, Seq::empty(), TokenKind::RightParen));
                match a.value {
                    Some(args) => some(ExprView::Call { callee: Box::new(left), args }, a.cursor),
                    None => none(a.cursor),
                }
            } else if kind == TokenKind::LeftBracket {
                after(c1, self.index_operand(c1, left))
            } else {
                match left {
                    ExprView::Ident(name) => after(c1, self.member(c1, name)),
                    _ => none(self.fail(c, "Expect identifier before '.'"@)),
                }
            };
            match p.value {
                None => none(p.cursor),
                Some(e) => if self.left(p.cursor) < self.left(c) {
                    self.operators(p.cursor, e, min)
                } else {
                    none(p.cursor)
                },
            }
        }
    }

    /// After a binary operator: its right operand, which holds the
    /// operators that bind tighter than it. The left of `=` must be a name,
    /// a `this` member or an index.
    #[verifier::opaque]
    pub open spec fn right_operand(self, c: Cursor, left: ExprView, op: TokenView) -> Parsed<
        ExprView,
    >
        decreases self.left(c), 7int,
    {
        let p = after(c, self.expression(c, precedence_of(op.kind)));
        match p.value {
            None => none(self.fail(p.cursor, "Expect expression"@)),
            Some(right) => if op.kind == TokenKind::Equal && !is_assignable(left) {
                none(self.fail(p.cursor, "Invalid assignment target"@))
            } else {
                some(ExprView::InfixExpr(Box::new(left), op, Box::new(right)), p.cursor)
            },
        }
    }

    /// After `[`: `EXPR ]`. An index written as a number literal is taken
    /// as its integer part.
    #[verifier::opaque]
    pub open spec fn index_operand(self, c: Cursor, left: ExprView) -> Parsed<ExprView>
        decreases self.left(c), 7int,
    {
        let p = after(c, self.expression(c, Precedence::Lowest));
        match p.value {
            None => none(p.cursor),
            Some(index) => if self.kind(p.cursor) != TokenKind::RightBracket {
                none(self.fail(p.cursor, "Expect ']' after index"@))
            } else {
                some(
                    ExprView::IndexExpr(
                        Box::new(left),
                        Box::new(
                            match index {
                                ExprView::Literal(LiteralView::Number(n)) => ExprView::Literal(
                                    LiteralView::Index(n.integer_part()),
                                ),
                                _ => index,
                            },
                        ),
                    ),
                    self.advance(p.cursor),
                )
            },
        }
    }

    /// After `.` on the name `callee`: `IDENT`, or `IDENT (args)`.
    #[verifier::opaque]
    pub open spec fn member(self, c: Cursor, callee: Seq<char>) -> Parsed<ExprView>
        decreases self.left(c), 7int,
    {
        match self.ident(c) {
            None => none(self.fail(c, "Expect property name after '.'"@)),
            Some(name) => {
                let c1 = self.advance(c);
                if self.kind(c1) != TokenKind::LeftParen {
                    some(ExprView::ClassGet { callee, prop: name }, c1)
                } else {
                    let a = self.items(self.advance(c1), Seq::empty(), TokenKind::RightParen);
                    match a.value {
                        Some(args) => some(
                            ExprView::ClassCall { callee, method: name, args },
                            a.cursor,
                        ),
                        None => none(a.cursor),
                    }
                }
            },
        }
    }
}

} // verus!
