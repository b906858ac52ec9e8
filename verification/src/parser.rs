//! The parser: a Pratt parser over the tokens of a lexer, which it reads as
//! it goes. What it gives is stated by the grammar.

use crate::ast::{
    arms_view, exprs_view, idents_view, import_names, lemma_stmts_index, lemma_stmts_len,
    pairs_view, stmts_view, ExprType, ExprView, Ident, Precedence, Program, Stmt, StmtView,
};
use crate::grammar::{is_binary_operator, precedence_of, Cursor, Grammar, Parsed, Stop};
use crate::lexer::{code_steps, lemma_code_step, lemma_code_steps, lemma_scan_at_end, Lexing};
use crate::number::{lawful, model_of, NumberReply, NumberRequest};
use crate::token::{Token, TokenKind};
use vstd::prelude::*;

mod blocks;
mod control;
mod declarations;
mod expressions;
mod lists;
mod operators;

verus! {

/// A parser over one source. `K` is the number kernel, which says what
/// number each number literal denotes.
pub struct Parser<'a, K: Fn(NumberRequest) -> NumberReply> {
    lex: Lexing<'a>,
    current: Token,
    next: Token,
    prev: Token,
    consumed: usize,
    numbers: K,
    /// Where in the source the lexer stood when the parser took it over.
    start: Ghost<int>,
}

/// What `r` and the cursor `c` are as the result of a rule for
/// expressions.
pub open spec fn expr_parsed(r: Option<ExprType>, c: Cursor) -> Parsed<ExprView> {
    Parsed {
        value: match r {
            Some(e) => Some(e.view()),
            None => None,
        },
        cursor: c,
    }
}

/// What `r` and the cursor `c` are as the result of a rule for
/// statements.
pub open spec fn stmt_parsed(r: Option<Stmt>, c: Cursor) -> Parsed<StmtView> {
    Parsed {
        value: match r {
            Some(s) => Some(s.view()),
            None => None,
        },
        cursor: c,
    }
}

/// What `r` and the cursor `c` are as the result of a rule for runs of
/// statements that may fail.
pub open spec fn block_parsed(r: Option<Vec<Stmt>>, c: Cursor) -> Parsed<Seq<StmtView>> {
    Parsed {
        value: match r {
            Some(b) => Some(stmts_view(b@)),
            None => None,
        },
        cursor: c,
    }
}

/// What `r` and the cursor `c` are as the result of a rule for runs of
/// expressions.
pub open spec fn exprs_parsed(r: Option<Vec<ExprType>>, c: Cursor) -> Parsed<Seq<ExprView>> {
    Parsed {
        value: match r {
            Some(es) => Some(exprs_view(es@)),
            None => None,
        },
        cursor: c,
    }
}

/// How tightly a token of kind `kind` binds the expression on its left.
pub fn precedence_for(kind: TokenKind) -> (p: Precedence)
    ensures
        p == precedence_of(kind),
{
    match kind {
        TokenKind::And | TokenKind::Or => Precedence::And,
        TokenKind::EqualEqual | TokenKind::BangEqual | TokenKind::Equal => Precedence::Equals,
        TokenKind::Less | TokenKind::LessEqual | TokenKind::Greater | TokenKind::GreaterEqual =>
            Precedence::LessGreater,
        TokenKind::SlashSelf | TokenKind::StarSelf | TokenKind::ModSelf => Precedence::OpSelfMul,
        TokenKind::MinusSelf | TokenKind::PlusSelf => Precedence::OpSelfSum,
        TokenKind::Plus | TokenKind::Minus => Precedence::Plus,
        TokenKind::Star | TokenKind::Mod | TokenKind::Slash => Precedence::Star,
        TokenKind::LeftParen => Precedence::Call,
        TokenKind::LeftBracket => Precedence::Index,
        TokenKind::Dot => Precedence::Call,
        _ => Precedence::Lowest,
    }
}

fn binary_operator(kind: TokenKind) -> (b: bool)
    ensures
        b == is_binary_operator(kind),
{
    match kind {
        TokenKind::Star
        | TokenKind::Slash
        | TokenKind::Plus
        | TokenKind::Minus
        | TokenKind::EqualEqual
        | TokenKind::Equal
        | TokenKind::BangEqual
        | TokenKind::Less
        | TokenKind::LessEqual
        | TokenKind::Greater
        | TokenKind::GreaterEqual
        | TokenKind::And
        | TokenKind::Or
        | TokenKind::MinusSelf
        | TokenKind::PlusSelf
        | TokenKind::StarSelf
        | TokenKind::SlashSelf
        | TokenKind::ModSelf
        | TokenKind::Mod => true,
        _ => false,
    }
}

fn stops(stop: &Stop, kind: TokenKind) -> (b: bool)
    ensures
        b == stop.at(kind),
{
    match stop {
        Stop::End => kind == TokenKind::Eof,
        Stop::Brace => kind == TokenKind::RightBrace,
        Stop::Case => kind == TokenKind::RightBrace || kind == TokenKind::Case || kind
            == TokenKind::Default,
    }
}

pub proof fn lemma_stmts_push(v: Seq<Stmt>, s: Stmt)
    ensures
        stmts_view(v.push(s)) == stmts_view(v).push(s.view()),
{
    assert(v.push(s).drop_last() =~= v);
}

pub proof fn lemma_exprs_push(v: Seq<ExprType>, e: ExprType)
    ensures
        exprs_view(v.push(e)) == exprs_view(v).push(e.view()),
{
    assert(v.push(e).drop_last() =~= v);
}

pub proof fn lemma_pairs_push(v: Seq<(ExprType, ExprType)>, k: ExprType, e: ExprType)
    ensures
        pairs_view(v.push((k, e))) == pairs_view(v).push((k.view(), e.view())),
{
    assert(v.push((k, e)).drop_last() =~= v);
}

pub proof fn lemma_arms_push(v: Seq<(Box<ExprType>, Vec<Stmt>)>, c: ExprType, b: Vec<Stmt>)
    ensures
        arms_view(v.push((Box::new(c), b))) == arms_view(v).push((c.view(), stmts_view(b@))),
{
    assert(v.push((Box::new(c), b)).drop_last() =~= v);
}

pub proof fn lemma_idents_push(v: Seq<Ident>, i: Ident)
    ensures
        idents_view(v.push(i)) == idents_view(v).push(i@),
{
    assert(idents_view(v.push(i)) =~= idents_view(v).push(i@));
}

impl<'a, K: Fn(NumberRequest) -> NumberReply> Parser<'a, K> {
    /// The source as the grammar sees it.
    pub closed spec fn grammar(&self) -> Grammar {
        Grammar {
            source: self.lex.source(),
            steps: code_steps(self.lex.source(), self.start@),
            numbers: model_of(&self.numbers).parse,
        }
    }

    /// Where the parser stands.
    pub closed spec fn cursor(&self) -> Cursor {
        Cursor { at: self.consumed as int, prev: self.prev@, errors: self.lex.error_texts() }
    }

    /// The parser's invariant: it holds the current token and the next,
    /// and its lexer has read just these.
    pub closed spec fn wf(&self) -> bool {
        let g = self.grammar();
        &&& self.lex.wf()
        &&& lawful(&self.numbers)
        &&& 0 <= self.start@ <= g.source.len()
        &&& self.consumed < g.steps.len()
        &&& self.current@ == g.token(self.consumed as int)
        &&& self.next@ == g.token(self.consumed + 1)
        &&& self.lex.position() == g.read_to(self.cursor())
    }

    /// A parser of what `lex` has not read yet, with the diagnostics that
    /// `lex` has collected so far. `numbers` must be a number kernel.
    pub fn new(lex: Lexing<'a>, numbers: K) -> (parser: Parser<'a, K>)
        requires
            lex.wf(),
            lawful(&numbers),
        ensures
            parser.wf(),
            parser.grammar().source == lex.source(),
            parser.grammar().steps == code_steps(lex.source(), lex.position()),
            parser.grammar().numbers == model_of(&numbers).parse,
            parser.cursor() == (Cursor {
                errors: lex.error_texts() + parser.grammar().start().errors,
                ..parser.grammar().start()
            }),
    {
        let mut lex = lex;
        let ghost src = lex.source();
        let ghost start = lex.position();
        let ghost known = lex.error_texts();
        proof {
            lex.lemma_source_fits();
            lemma_code_steps(src, start);
            lemma_scan_at_end(src);
            if code_steps(src, start).len() > 1 {
                lemma_code_step(src, start, 0);
            }
        }
        let current = lex.next_code();
        let next = lex.next_code();
        let parser = Parser {
            lex,
            current,
            next,
            prev: Token::Eof,
            consumed: 0,
            numbers,
            start: Ghost(start),
        };
        proof {
            let g = parser.grammar();
            assert(parser.cursor().errors =~= known + g.start().errors);
        }
        parser
    }

    /// The names of the modules that `program` imports, in order; `None`
    /// if it imports none. The caller reads the files.
    pub fn get_imports(&self, program: &Program) -> (r: Option<Vec<String>>)
        ensures
            match r {
                Some(names) => names.len() > 0 && crate::lexer::texts(names@) == import_names(
                    stmts_view(program@),
                    program.len() as int,
                ),
                None => import_names(stmts_view(program@), program.len() as int).len() == 0,
            },
    {
        let mut names: Vec<String> = Vec::new();
        let mut i: usize = 0;
        proof {
            lemma_stmts_len(program@);
            assert(crate::lexer::texts(names@) =~= import_names(stmts_view(program@), 0));
        }
        while i < program.len()
            invariant
                i <= program.len(),
                stmts_view(program@).len() == program.len(),
                crate::lexer::texts(names@) == import_names(stmts_view(program@), i as int),
            decreases program.len() - i,
        {
            proof {
                lemma_stmts_index(program@, i as int);
            }
            match &program[i] {
                Stmt::Import(name) => {
                    let ghost before = names@;
                    names.push(name.clone());
                    assert(crate::lexer::texts(names@) =~= crate::lexer::texts(before).push(
                        name@,
                    ));
                },
                _ => {},
            }
            i += 1;
        }
        if names.len() == 0 {
            None
        } else {
            Some(names)
        }
    }

    /// Whether lexer or parser has raised a diagnostic.
    pub fn has_errors(&self) -> (b: bool)
        ensures
            b == (self.cursor().errors.len() > 0),
    {
        self.lex.has_errors()
    }

    /// The diagnostics raised so far, oldest first.
    pub fn errors(&self) -> (errors: &Vec<String>)
        ensures
            crate::lexer::texts(errors@) == self.cursor().errors,
    {
        self.lex.diagnostics()
    }

    /// The kind of the current token.
    fn kind(&self) -> (k: TokenKind)
        requires
            self.wf(),
        ensures
            k == self.grammar().kind(self.cursor()),
    {
        self.current.kind()
    }

    /// The kind of the token after the current one.
    fn next_kind(&self) -> (k: TokenKind)
        requires
            self.wf(),
        ensures
            k == self.grammar().next_kind(self.cursor()),
    {
        self.next.kind()
    }

    /// The text of the current token.
    fn text(&self) -> (t: String)
        requires
            self.wf(),
        ensures
            t@ == self.grammar().text(self.cursor()),
    {
        self.current.text()
    }

    /// How tightly `token` binds the expression on its left.
    fn token_precedence(&self, token: &Token) -> (p: Precedence)
        ensures
            p == precedence_of(token@.kind),
    {
        precedence_for(token.kind())
    }

    /// How tightly the current token binds the expression on its left.
    fn current_token_precedence(&self) -> (p: Precedence)
        requires
            self.wf(),
        ensures
            p == precedence_of(self.grammar().kind(self.cursor())),
    {
        self.token_precedence(&self.current)
    }

    /// The name that the current token is, if it is an identifier.
    fn parse_ident(&self) -> (r: Option<Ident>)
        requires
            self.wf(),
        ensures
            match r {
                Some(i) => Some(i@),
                None => None,
            } == self.grammar().ident(self.cursor()),
    {
        match &self.current {
            Token::Identifier(s) => Some(Ident(s.clone())),
            _ => None,
        }
    }

    /// Moves to the next token, reading one more from the lexer.
    fn next(&mut self)
        requires
            old(self).wf(),
        ensures
            final(self).wf(),
            final(self).grammar() == old(self).grammar(),
            final(self).cursor() == old(self).grammar().advance(old(self).cursor()),
            final(self).cursor().at >= old(self).cursor().at,
    {
        let ghost g = self.grammar();
        let ghost c = self.cursor();
        proof {
            self.lex.lemma_source_fits();
            lemma_code_steps(g.source, self.start@);
            lemma_scan_at_end(g.source);
            if c.at + 1 < g.steps.len() - 1 {
                lemma_code_step(g.source, self.start@, c.at + 1);
            }
            if c.at < g.steps.len() - 1 {
                lemma_code_step(g.source, self.start@, c.at);
            }
        }
        let at_end = self.current.kind() == TokenKind::Eof;
        let token = self.lex.next_code();
        std::mem::swap(&mut self.prev, &mut self.current);
        std::mem::swap(&mut self.current, &mut self.next);
        self.next = token;
        if !at_end {
            self.consumed += 1;
        }
        proof {
            assert(self.cursor().errors =~= g.advance(c).errors);
        }
    }

    /// Raises a diagnostic about the current token.
    fn fail(&mut self, message: &str)
        requires
            old(self).wf(),
        ensures
            final(self).wf(),
            final(self).grammar() == old(self).grammar(),
            final(self).cursor() == old(self).grammar().fail(old(self).cursor(), message@),
    {
        let token = self.current.duplicate();
        self.lex.log_error(token, message);
    }
}

impl<'a, K: Fn(NumberRequest) -> NumberReply> Parser<'a, K> {
    /// How many tokens are left, the current one counted.
    pub closed spec fn left(&self) -> nat {
        self.grammar().left(self.cursor())
    }

    /// Whether this parser is `before` after some reading: over the same
    /// source, and no further back.
    pub open spec fn follows(&self, before: &Self) -> bool {
        &&& self.wf()
        &&& self.grammar() == before.grammar()
        &&& self.cursor().at >= before.cursor().at
    }

    proof fn lemma_left(&self)
        requires
            self.wf(),
        ensures
            self.left() == self.grammar().steps.len() - self.cursor().at,
            self.left() > 0,
    {
    }
}

} // verus!
