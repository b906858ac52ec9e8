//! The lexer: from source text to tokens, one at a time, with the
//! diagnostics it collects on the way.
//!
//! What the lexer produces is defined by [`scan`], a function of the source
//! and a position. [`Lexing::next`] computes it.

use crate::text::{chars_of, decimal, push_char, push_decimal, string_of};
use crate::token::{Token, TokenKind, TokenView};
use vstd::prelude::*;

verus! {

/// Characters skipped between tokens.
pub open spec fn is_blank(c: char) -> bool {
    c == ' ' || c == '\n' || c == '\t'
}

pub open spec fn is_digit(c: char) -> bool {
    '0' <= c && c <= '9'
}

pub open spec fn is_ident_start(c: char) -> bool {
    ('a' <= c && c <= 'z') || ('A' <= c && c <= 'Z') || c == '_'
}

pub open spec fn is_ident_part(c: char) -> bool {
    is_ident_start(c) || is_digit(c)
}

/// The number of line breaks in `src[..pos]`.
pub open spec fn line_breaks(src: Seq<char>, pos: int) -> nat
    decreases pos,
{
    if pos <= 0 || pos > src.len() {
        0
    } else {
        line_breaks(src, pos - 1) + if src[pos - 1] == '\n' {
            1nat
        } else {
            0nat
        }
    }
}

/// The prefix of every diagnostic raised at `pos`: `[line N] Error`, with
/// lines counted from 1.
pub open spec fn error_prefix(src: Seq<char>, pos: int) -> Seq<char> {
    "[line "@ + decimal(line_breaks(src, pos) + 1) + "] Error"@
}

pub open spec fn unexpected_character_error(src: Seq<char>, pos: int, c: char) -> Seq<char> {
    error_prefix(src, pos) + ": Unexpected character: "@ + seq![c]
}

pub open spec fn unknown_escape_error(src: Seq<char>, pos: int, c: char) -> Seq<char> {
    error_prefix(src, pos) + ": Unknown escape character: "@ + seq![c]
}

pub open spec fn unterminated_string_error(src: Seq<char>, pos: int) -> Seq<char> {
    error_prefix(src, pos) + ": Unterminated string."@
}

/// The diagnostic the parser raises at `pos` about the token with text
/// `at`.
pub open spec fn syntax_error(src: Seq<char>, pos: int, at: Seq<char>, message: Seq<char>) -> Seq<
    char,
> {
    error_prefix(src, pos) + " at '"@ + at + "': "@ + message + "."@
}

/// The reserved word spelled `word`, if it is one. Reserved words are lower
/// case; any other spelling is an identifier.
pub open spec fn keyword_kind(word: Seq<char>) -> Option<TokenKind> {
    if word == "var"@ {
        Some(TokenKind::Var)
    } else if word == "and"@ {
        Some(TokenKind::And)
    } else if word == "class"@ {
        Some(TokenKind::Class)
    } else if word == "else"@ {
        Some(TokenKind::Else)
    } else if word == "false"@ {
        Some(TokenKind::False)
    } else if word == "for"@ {
        Some(TokenKind::For)
    } else if word == "fun"@ {
        Some(TokenKind::Fun)
    } else if word == "if"@ {
        Some(TokenKind::If)
    } else if word == "nil"@ {
        Some(TokenKind::Nil)
    } else if word == "or"@ {
        Some(TokenKind::Or)
    } else if word == "print"@ {
        Some(TokenKind::Print)
    } else if word == "return"@ {
        Some(TokenKind::Return)
    } else if word == "super"@ {
        Some(TokenKind::Super)
    } else if word == "this"@ {
        Some(TokenKind::This)
    } else if word == "true"@ {
        Some(TokenKind::True)
    } else if word == "while"@ {
        Some(TokenKind::While)
    } else if word == "switch"@ {
        Some(TokenKind::Switch)
    } else if word == "case"@ {
        Some(TokenKind::Case)
    } else if word == "default"@ {
        Some(TokenKind::Default)
    } else if word == "new"@ {
        Some(TokenKind::New)
    } else if word == "in"@ {
        Some(TokenKind::In)
    } else if word == "import"@ {
        Some(TokenKind::Import)
    } else if word == "assert"@ {
        Some(TokenKind::Assert)
    } else {
        None
    }
}

/// The character an escape sequence `\c` stands for, if `c` names one.
pub open spec fn unescape(c: char) -> Option<char> {
    if c == 'n' {
        Some('\n')
    } else if c == 'r' {
        Some('\r')
    } else if c == 't' {
        Some('\t')
    } else if c == '0' {
        Some('\0')
    } else if c == '\\' {
        Some('\\')
    } else if c == '\'' {
        Some('\'')
    } else if c == '"' {
        Some('"')
    } else {
        None
    }
}

/// Where the run of digits that starts at `pos` ends.
pub open spec fn digits_end(src: Seq<char>, pos: int) -> int
    decreases src.len() - pos,
{
    if 0 <= pos < src.len() && is_digit(src[pos]) {
        digits_end(src, pos + 1)
    } else {
        pos
    }
}

/// Where the number that starts at `pos` ends: digits, then a `.` and more
/// digits if a digit follows the `.`.
pub open spec fn number_end(src: Seq<char>, pos: int) -> int {
    let whole = digits_end(src, pos);
    if 0 <= whole && whole + 1 < src.len() && src[whole] == '.' && is_digit(src[whole + 1]) {
        digits_end(src, whole + 1)
    } else {
        whole
    }
}

/// Where the run of identifier characters that starts at `pos` ends.
pub open spec fn word_end(src: Seq<char>, pos: int) -> int
    decreases src.len() - pos,
{
    if 0 <= pos < src.len() && is_ident_part(src[pos]) {
        word_end(src, pos + 1)
    } else {
        pos
    }
}

/// Where the line that `pos` is on ends: the position of its line break, or
/// the end of the source.
pub open spec fn line_end(src: Seq<char>, pos: int) -> int
    decreases src.len() - pos,
{
    if 0 <= pos < src.len() && src[pos] != '\n' {
        line_end(src, pos + 1)
    } else {
        pos
    }
}

/// What scanning the inside of a string literal gives.
pub struct StringScan {
    /// The unescaped contents.
    pub text: Seq<char>,
    /// The position after the closing quote, or the end of the source.
    pub end: int,
    /// Whether the closing quote was found.
    pub closed: bool,
    /// The diagnostics raised by unknown escapes, in order.
    pub errors: Seq<Seq<char>>,
}

/// Scans the contents of a string literal from `pos`, the position after
/// the opening `quote`.
pub open spec fn scan_string(src: Seq<char>, pos: int, quote: char) -> StringScan
    decreases src.len() - pos,
{
    if pos < 0 || pos >= src.len() {
        StringScan { text: Seq::empty(), end: pos, closed: false, errors: Seq::empty() }
    } else if src[pos] == quote {
        StringScan { text: Seq::empty(), end: pos + 1, closed: true, errors: Seq::empty() }
    } else if src[pos] == '\\' {
        if pos + 1 >= src.len() {
            StringScan { text: Seq::empty(), end: pos + 1, closed: false, errors: Seq::empty() }
        } else {
            let rest = scan_string(src, pos + 2, quote);
            match unescape(src[pos + 1]) {
                Some(c) => StringScan { text: seq![c] + rest.text, ..rest },
                None => StringScan {
                    errors: seq![unknown_escape_error(src, pos + 2, src[pos + 1])] + rest.errors,
                    ..rest
                },
            }
        }
    } else {
        let rest = scan_string(src, pos + 1, quote);
        StringScan { text: seq![src[pos]] + rest.text, ..rest }
    }
}

/// One step of the lexer: the token found, the span of the source it was
/// read from, and the diagnostics raised on the way to it.
pub struct Scanned {
    pub token: TokenView,
    /// Where the token starts, after what was skipped.
    pub start: int,
    /// Where scanning resumes for the next token.
    pub end: int,
    pub errors: Seq<Seq<char>>,
}

impl Scanned {
    /// This step, preceded by the diagnostics `earlier`.
    pub open spec fn after(self, earlier: Seq<Seq<char>>) -> Scanned {
        Scanned { errors: earlier + self.errors, ..self }
    }

    pub open spec fn fixed(kind: TokenKind, start: int, end: int) -> Scanned {
        Scanned { token: TokenView::fixed(kind), start, end, errors: Seq::empty() }
    }
}

/// The token that starts with `c` alone, or with `c` and a following `=`
/// (`|` and `&` double themselves instead).
pub open spec fn operator_kinds(c: char) -> Option<(TokenKind, char, TokenKind)> {
    if c == '=' {
        Some((TokenKind::Equal, '=', TokenKind::EqualEqual))
    } else if c == '!' {
        Some((TokenKind::Bang, '=', TokenKind::BangEqual))
    } else if c == '<' {
        Some((TokenKind::Less, '=', TokenKind::LessEqual))
    } else if c == '>' {
        Some((TokenKind::Greater, '=', TokenKind::GreaterEqual))
    } else if c == '|' {
        Some((TokenKind::BitOr, '|', TokenKind::Or))
    } else if c == '&' {
        Some((TokenKind::BitAnd, '&', TokenKind::And))
    } else if c == '+' {
        Some((TokenKind::Plus, '=', TokenKind::PlusSelf))
    } else if c == '-' {
        Some((TokenKind::Minus, '=', TokenKind::MinusSelf))
    } else if c == '*' {
        Some((TokenKind::Star, '=', TokenKind::StarSelf))
    } else if c == '%' {
        Some((TokenKind::Mod, '=', TokenKind::ModSelf))
    } else {
        None
    }
}

/// The token that the single character `c` is, if it is one by itself
/// whatever follows.
pub open spec fn punctuation_kind(c: char) -> Option<TokenKind> {
    if c == ';' {
        Some(TokenKind::Semicolon)
    } else if c == '(' {
        Some(TokenKind::LeftParen)
    } else if c == ')' {
        Some(TokenKind::RightParen)
    } else if c == '{' {
        Some(TokenKind::LeftBrace)
    } else if c == '}' {
        Some(TokenKind::RightBrace)
    } else if c == '[' {
        Some(TokenKind::LeftBracket)
    } else if c == ']' {
        Some(TokenKind::RightBracket)
    } else if c == ':' {
        Some(TokenKind::Colon)
    } else if c == ',' {
        Some(TokenKind::Comma)
    } else if c == '.' {
        Some(TokenKind::Dot)
    } else {
        None
    }
}

/// The next token of `src` at or after `pos`.
///
/// Blanks are skipped. A character that starts no token raises a
/// diagnostic and is skipped too; so is a string literal that the source
/// ends in. At the end of the source the token is `Eof`.
#[verifier::opaque]
pub open spec fn scan(src: Seq<char>, pos: int) -> Scanned
    decreases src.len() - pos,
{
    if pos < 0 || pos >= src.len() {
        Scanned::fixed(TokenKind::Eof, pos, pos)
    } else {
        let c = src[pos];
        if is_blank(c) {
            scan(src, pos + 1)
        } else if operator_kinds(c) is Some {
            let (single, second, double) = operator_kinds(c).unwrap();
            if pos + 1 < src.len() && src[pos + 1] == second {
                Scanned::fixed(double, pos, pos + 2)
            } else {
                Scanned::fixed(single, pos, pos + 1)
            }
        } else if punctuation_kind(c) is Some {
            Scanned::fixed(punctuation_kind(c).unwrap(), pos, pos + 1)
        } else if c == '/' {
            if pos + 1 < src.len() && src[pos + 1] == '/' {
                let stop = line_end(src, pos + 2);
                Scanned {
                    token: TokenView::with_text(TokenKind::Comment, src.subrange(pos + 2, stop)),
                    start: pos,
                    end: if stop < src.len() {
                        stop + 1
                    } else {
                        stop
                    },
                    errors: Seq::empty(),
                }
            } else if pos + 1 < src.len() && src[pos + 1] == '=' {
                Scanned::fixed(TokenKind::SlashSelf, pos, pos + 2)
            } else {
                Scanned::fixed(TokenKind::Slash, pos, pos + 1)
            }
        } else if c == '"' || c == '\'' {
            let body = scan_string(src, pos + 1, c);
            if body.closed {
                Scanned {
                    token: TokenView::with_text(TokenKind::String, body.text),
                    start: pos,
                    end: body.end,
                    errors: body.errors,
                }
            } else {
                Scanned::fixed(TokenKind::Eof, src.len() as int, src.len() as int).after(
                    body.errors.push(unterminated_string_error(src, src.len() as int)),
                )
            }
        } else if is_digit(c) {
            let end = number_end(src, pos);
            Scanned {
                token: TokenView::with_text(TokenKind::Number, src.subrange(pos, end)),
                start: pos,
                end,
                errors: Seq::empty(),
            }
        } else if is_ident_start(c) {
            let end = word_end(src, pos);
            let word = src.subrange(pos, end);
            Scanned {
                token: match keyword_kind(word) {
                    Some(kind) => TokenView::fixed(kind),
                    None => TokenView::with_text(TokenKind::Identifier, word),
                },
                start: pos,
                end,
                errors: Seq::empty(),
            }
        } else {
            scan(src, pos + 1).after(seq![unexpected_character_error(src, pos + 1, c)])
        }
    }
}

/// The views of the strings of `v`, in order.
pub open spec fn texts(v: Seq<String>) -> Seq<Seq<char>> {
    v.map_values(|s: String| s@)
}

/// A lexer over one source text.
pub struct Lexing<'a> {
    source: &'a str,
    chars: Vec<char>,
    position: usize,
    lines: usize,
    /// The diagnostics collected so far, oldest first.
    pub errors: Vec<String>,
}

fn blank(c: char) -> (b: bool)
    ensures
        b == is_blank(c),
{
    c == ' ' || c == '\n' || c == '\t'
}

fn digit(c: char) -> (b: bool)
    ensures
        b == is_digit(c),
{
    '0' <= c && c <= '9'
}

fn ident_start(c: char) -> (b: bool)
    ensures
        b == is_ident_start(c),
{
    ('a' <= c && c <= 'z') || ('A' <= c && c <= 'Z') || c == '_'
}

fn ident_part(c: char) -> (b: bool)
    ensures
        b == is_ident_part(c),
{
    ident_start(c) || digit(c)
}

fn escaped(c: char) -> (r: Option<char>)
    ensures
        r == unescape(c),
{
    if c == 'n' {
        Some('\n')
    } else if c == 'r' {
        Some('\r')
    } else if c == 't' {
        Some('\t')
    } else if c == '0' {
        Some('\0')
    } else if c == '\\' {
        Some('\\')
    } else if c == '\'' {
        Some('\'')
    } else if c == '"' {
        Some('"')
    } else {
        None
    }
}

fn operator_of(c: char) -> (r: Option<(TokenKind, char, TokenKind)>)
    ensures
        r == operator_kinds(c),
{
    if c == '=' {
        Some((TokenKind::Equal, '=', TokenKind::EqualEqual))
    } else if c == '!' {
        Some((TokenKind::Bang, '=', TokenKind::BangEqual))
    } else if c == '<' {
        Some((TokenKind::Less, '=', TokenKind::LessEqual))
    } else if c == '>' {
        Some((TokenKind::Greater, '=', TokenKind::GreaterEqual))
    } else if c == '|' {
        Some((TokenKind::BitOr, '|', TokenKind::Or))
    } else if c == '&' {
        Some((TokenKind::BitAnd, '&', TokenKind::And))
    } else if c == '+' {
        Some((TokenKind::Plus, '=', TokenKind::PlusSelf))
    } else if c == '-' {
        Some((TokenKind::Minus, '=', TokenKind::MinusSelf))
    } else if c == '*' {
        Some((TokenKind::Star, '=', TokenKind::StarSelf))
    } else if c == '%' {
        Some((TokenKind::Mod, '=', TokenKind::ModSelf))
    } else {
        None
    }
}

fn punctuation_of(c: char) -> (r: Option<TokenKind>)
    ensures
        r == punctuation_kind(c),
{
    if c == ';' {
        Some(TokenKind::Semicolon)
    } else if c == '(' {
        Some(TokenKind::LeftParen)
    } else if c == ')' {
        Some(TokenKind::RightParen)
    } else if c == '{' {
        Some(TokenKind::LeftBrace)
    } else if c == '}' {
        Some(TokenKind::RightBrace)
    } else if c == '[' {
        Some(TokenKind::LeftBracket)
    } else if c == ']' {
        Some(TokenKind::RightBracket)
    } else if c == ':' {
        Some(TokenKind::Colon)
    } else if c == ',' {
        Some(TokenKind::Comma)
    } else if c == '.' {
        Some(TokenKind::Dot)
    } else {
        None
    }
}

/// Whether `word` is spelled exactly `literal`.
fn spelled(word: &String, literal: &str) -> (b: bool)
    ensures
        b == (word@ == literal@),
{
    *word == String::from_str(literal)
}

/// The reserved word that `word` spells, if any.
pub fn keyword_of(word: &String) -> (r: Option<TokenKind>)
    ensures
        r == keyword_kind(word@),
{
    if spelled(word, "var") {
        Some(TokenKind::Var)
    } else if spelled(word, "and") {
        Some(TokenKind::And)
    } else if spelled(word, "class") {
        Some(TokenKind::Class)
    } else if spelled(word, "else") {
        Some(TokenKind::Else)
    } else if spelled(word, "false") {
        Some(TokenKind::False)
    } else if spelled(word, "for") {
        Some(TokenKind::For)
    } else if spelled(word, "fun") {
        Some(TokenKind::Fun)
    } else if spelled(word, "if") {
        Some(TokenKind::If)
    } else if spelled(word, "nil") {
        Some(TokenKind::Nil)
    } else if spelled(word, "or") {
        Some(TokenKind::Or)
    } else if spelled(word, "print") {
        Some(TokenKind::Print)
    } else if spelled(word, "return") {
        Some(TokenKind::Return)
    } else if spelled(word, "super") {
        Some(TokenKind::Super)
    } else if spelled(word, "this") {
        Some(TokenKind::This)
    } else if spelled(word, "true") {
        Some(TokenKind::True)
    } else if spelled(word, "while") {
        Some(TokenKind::While)
    } else if spelled(word, "switch") {
        Some(TokenKind::Switch)
    } else if spelled(word, "case") {
        Some(TokenKind::Case)
    } else if spelled(word, "default") {
        Some(TokenKind::Default)
    } else if spelled(word, "new") {
        Some(TokenKind::New)
    } else if spelled(word, "in") {
        Some(TokenKind::In)
    } else if spelled(word, "import") {
        Some(TokenKind::Import)
    } else if spelled(word, "assert") {
        Some(TokenKind::Assert)
    } else {
        None
    }
}

impl<'a> Lexing<'a> {
    /// The source as a sequence of characters.
    pub closed spec fn source(&self) -> Seq<char> {
        self.chars@
    }

    /// How far into the source the lexer has read.
    pub closed spec fn position(&self) -> int {
        self.position as int
    }

    /// The diagnostics collected so far, as texts.
    pub closed spec fn error_texts(&self) -> Seq<Seq<char>> {
        texts(self.errors@)
    }

    /// The lexer's invariant: it stands inside its source and has counted
    /// the line breaks behind it.
    pub closed spec fn wf(&self) -> bool {
        &&& self.chars@ == self.source@
        &&& self.position <= self.chars.len()
        &&& self.lines as nat == line_breaks(self.chars@, self.position as int)
    }

    /// A lexer at the start of `input`, with no diagnostics.
    pub fn new(input: &'a str) -> (lex: Lexing<'a>)
        ensures
            lex.wf(),
            lex.source() == input@,
            lex.position() == 0,
            lex.error_texts().len() == 0,
    {
        Lexing { source: input, chars: chars_of(input), position: 0, lines: 0, errors: Vec::new() }
    }

    /// Whether `var` is a reserved word.
    pub fn is_keyword(&self, var: &String) -> (b: bool)
        ensures
            b == keyword_kind(var@) is Some,
    {
        keyword_of(var).is_some()
    }

    /// Reads the character at the current position and moves past it.
    fn get_char(&mut self) -> (c: char)
        requires
            old(self).wf(),
            old(self).position() < old(self).source().len(),
        ensures
            final(self).wf(),
            c == old(self).source()[old(self).position()],
            final(self).position() == old(self).position() + 1,
            final(self).source() == old(self).source(),
            final(self).error_texts() == old(self).error_texts(),
    {
        let c = self.chars[self.position];
        proof {
            lemma_line_breaks_bound(self.chars@, self.position as int);
        }
        self.position += 1;
        if c == '\n' {
            self.lines += 1;
        }
        c
    }

    /// The character at the current position, or NUL at the end.
    fn peek(&self) -> (c: char)
        requires
            self.wf(),
        ensures
            c == if self.position() < self.source().len() {
                self.source()[self.position()]
            } else {
                '\0'
            },
    {
        if self.position < self.chars.len() {
            self.chars[self.position]
        } else {
            '\0'
        }
    }

    /// The `n`-th character from the current position, counting from 1, or
    /// NUL past the end.
    fn peek_n(&self, n: usize) -> (c: char)
        requires
            self.wf(),
            n >= 1,
        ensures
            c == if self.position() + n - 1 < self.source().len() {
                self.source()[self.position() + n - 1]
            } else {
                '\0'
            },
    {
        if n - 1 < self.chars.len() - self.position {
            self.chars[self.position + (n - 1)]
        } else {
            '\0'
        }
    }

    /// The source of a lexer is no longer than the machine can count, and
    /// the lexer stands inside it.
    pub proof fn lemma_source_fits(&self)
        requires
            self.wf(),
        ensures
            self.source().len() <= usize::MAX,
            0 <= self.position() <= self.source().len(),
    {
    }

    /// The diagnostics collected so far, oldest first.
    pub fn diagnostics(&self) -> (errors: &Vec<String>)
        ensures
            texts(errors@) == self.error_texts(),
    {
        &self.errors
    }

    /// Whether any diagnostic has been collected.
    pub fn has_errors(&self) -> (b: bool)
        ensures
            b == (self.error_texts().len() > 0),
    {
        self.errors.len() > 0
    }

    /// `[line N] Error`, for the line the lexer is on.
    fn error_head(&self) -> (s: String)
        requires
            self.wf(),
        ensures
            s@ == error_prefix(self.source(), self.position()),
    {
        let mut s = String::from_str("[line ");
        push_decimal(&mut s, self.lines as u128 + 1);
        s.append("] Error");
        s
    }

    /// Collects one diagnostic.
    fn record(&mut self, message: String)
        requires
            old(self).wf(),
        ensures
            final(self).wf(),
            final(self).position() == old(self).position(),
            final(self).source() == old(self).source(),
            final(self).error_texts() == old(self).error_texts().push(message@),
    {
        self.errors.push(message);
        assert(self.error_texts() =~= old(self).error_texts().push(message@));
    }

    /// Collects the diagnostic `[line N] Error at 'T': message.`, where `T`
    /// is the text of `token` if it is an identifier, a string or a number,
    /// `)` for a right parenthesis, and empty otherwise.
    pub fn log_error(&mut self, token: Token, message: &str)
        requires
            old(self).wf(),
        ensures
            final(self).wf(),
            final(self).position() == old(self).position(),
            final(self).source() == old(self).source(),
            final(self).error_texts() == old(self).error_texts().push(
                syntax_error(
                    old(self).source(),
                    old(self).position(),
                    blamed_text(token@),
                    message@,
                ),
            ),
    {
        let at = match token {
            Token::Identifier(s) => s,
            Token::String(s) => s,
            Token::Number(s) => s,
            Token::RightParen => String::from_str(")"),
            _ => String::new(),
        };
        let mut s = self.error_head();
        s.append(" at '");
        s.append(at.as_str());
        s.append("': ");
        s.append(message);
        s.append(".");
        self.record(s);
    }
}

impl StringScan {
    /// This scan, preceded by the text `text` and the diagnostics `errors`.
    pub open spec fn after(self, text: Seq<char>, errors: Seq<Seq<char>>) -> StringScan {
        StringScan { text: text + self.text, errors: errors + self.errors, ..self }
    }
}

impl<'a> Lexing<'a> {
    /// Moves past the run of digits at the current position.
    fn read_digits(&mut self)
        requires
            old(self).wf(),
        ensures
            final(self).wf(),
            final(self).source() == old(self).source(),
            final(self).error_texts() == old(self).error_texts(),
            final(self).position() == digits_end(old(self).source(), old(self).position()),
            old(self).position() <= final(self).position() <= old(self).source().len(),
    {
        loop
            invariant
                self.wf(),
                old(self).position() <= self.position() <= self.source().len(),
                self.source() == old(self).source(),
                self.error_texts() == old(self).error_texts(),
                digits_end(self.source(), self.position()) == digits_end(
                    old(self).source(),
                    old(self).position(),
                ),
            decreases self.chars.len() - self.position,
        {
            if self.position >= self.chars.len() || !digit(self.chars[self.position]) {
                return ;
            }
            self.get_char();
        }
    }

    /// Moves past the run of identifier characters at the current position.
    fn read_word(&mut self)
        requires
            old(self).wf(),
        ensures
            final(self).wf(),
            final(self).source() == old(self).source(),
            final(self).error_texts() == old(self).error_texts(),
            final(self).position() == word_end(old(self).source(), old(self).position()),
            old(self).position() <= final(self).position() <= old(self).source().len(),
    {
        loop
            invariant
                self.wf(),
                old(self).position() <= self.position() <= self.source().len(),
                self.source() == old(self).source(),
                self.error_texts() == old(self).error_texts(),
                word_end(self.source(), self.position()) == word_end(
                    old(self).source(),
                    old(self).position(),
                ),
            decreases self.chars.len() - self.position,
        {
            if self.position >= self.chars.len() || !ident_part(self.chars[self.position]) {
                return ;
            }
            self.get_char();
        }
    }

    /// Moves to the end of the current line, short of its line break.
    fn read_line(&mut self)
        requires
            old(self).wf(),
        ensures
            final(self).wf(),
            final(self).source() == old(self).source(),
            final(self).error_texts() == old(self).error_texts(),
            final(self).position() == line_end(old(self).source(), old(self).position()),
            old(self).position() <= final(self).position() <= old(self).source().len(),
    {
        loop
            invariant
                self.wf(),
                old(self).position() <= self.position() <= self.source().len(),
                self.source() == old(self).source(),
                self.error_texts() == old(self).error_texts(),
                line_end(self.source(), self.position()) == line_end(
                    old(self).source(),
                    old(self).position(),
                ),
            decreases self.chars.len() - self.position,
        {
            if self.position >= self.chars.len() || self.chars[self.position] == '\n' {
                return ;
            }
            self.get_char();
        }
    }

    /// Reads the contents of a string literal up to and including the closing
    /// `quote`. Gives the unescaped contents, or `None` if the source ends
    /// first.
    fn read_string(&mut self, quote: char) -> (text: Option<String>)
        requires
            old(self).wf(),
        ensures
            final(self).wf(),
            final(self).source() == old(self).source(),
            ({
                let body = scan_string(old(self).source(), old(self).position(), quote);
                &&& final(self).error_texts() == old(self).error_texts() + body.errors
                &&& final(self).position() == if body.closed {
                    body.end
                } else {
                    old(self).source().len() as int
                }
                &&& text is Some == body.closed
                &&& text is Some ==> text.unwrap()@ == body.text
            }),
    {
        let mut text = String::new();
        let ghost mut logged: Seq<Seq<char>> = Seq::empty();
        loop
            invariant
                self.wf(),
                self.source() == old(self).source(),
                old(self).position() <= self.position(),
                self.error_texts() == old(self).error_texts() + logged,
                scan_string(old(self).source(), old(self).position(), quote) == scan_string(
                    self.source(),
                    self.position(),
                    quote,
                ).after(text@, logged),
            decreases self.chars.len() - self.position,
        {
            let ghost here = scan_string(self.source(), self.position(), quote);
            if self.position >= self.chars.len() {
                proof {
                    assert(self.error_texts() =~= old(self).error_texts() + here.after(
                        text@,
                        logged,
                    ).errors);
                }
                return None;
            }
            let c = self.get_char();
            if c == quote {
                proof {
                    assert(here.after(text@, logged).text =~= text@);
                    assert(self.error_texts() =~= old(self).error_texts() + here.after(
                        text@,
                        logged,
                    ).errors);
                }
                return Some(text);
            }
            if c == '\\' {
                if self.position >= self.chars.len() {
                    proof {
                        assert(self.error_texts() =~= old(self).error_texts() + here.after(
                            text@,
                            logged,
                        ).errors);
                    }
                    return None;
                }
                let e = self.get_char();
                let ghost rest = scan_string(self.source(), self.position(), quote);
                match escaped(e) {
                    Some(u) => {
                        let ghost before = text@;
                        push_char(&mut text, u);
                        proof {
                            assert(rest.after(text@, logged).text =~= here.after(
                                before,
                                logged,
                            ).text);
                        }
                    },
                    None => {
                        let mut message = self.error_head();
                        message.append(": Unknown escape character: ");
                        push_char(&mut message, e);
                        assert(message@ =~= unknown_escape_error(
                            self.source(),
                            self.position(),
                            e,
                        ));
                        self.record(message);
                        proof {
                            let ghost earlier = logged;
                            logged = logged.push(message@);
                            assert(rest.after(text@, logged).errors =~= here.after(
                                text@,
                                earlier,
                            ).errors);
                            assert(self.error_texts() =~= old(self).error_texts() + logged);
                        }
                    },
                }
            } else {
                let ghost rest = scan_string(self.source(), self.position(), quote);
                let ghost before = text@;
                push_char(&mut text, c);
                proof {
                    assert(rest.after(text@, logged).text =~= here.after(before, logged).text);
                }
            }
        }
    }

    /// The next token of the source, or `Eof` once the source is used up.
    ///
    /// Never fails: what cannot be read is recorded in `errors` and skipped.
    pub fn next(&mut self) -> (token: Token)
        requires
            old(self).wf(),
        ensures
            final(self).wf(),
            final(self).source() == old(self).source(),
            ({
                let step = scan(old(self).source(), old(self).position());
                &&& token@ == step.token
                &&& final(self).position() == step.end
                &&& final(self).error_texts() == old(self).error_texts() + step.errors
            }),
    {
        let ghost mut logged: Seq<Seq<char>> = Seq::empty();
        loop
            invariant
                self.wf(),
                self.source() == old(self).source(),
                self.error_texts() == old(self).error_texts() + logged,
                scan(old(self).source(), old(self).position()) == scan(
                    self.source(),
                    self.position(),
                ).after(logged),
            decreases self.chars.len() - self.position,
        {
            let ghost here = scan(self.source(), self.position());
            proof {
                reveal(scan);
            }
            if self.position >= self.chars.len() {
                proof {
                    assert(here.after(logged).errors =~= logged);
                }
                return Token::Eof;
            }
            let start = self.position;
            let c = self.get_char();
            if blank(c) {
                continue ;
            }
            if let Some((single, second, double)) = operator_of(c) {
                proof {
                    assert(here.after(logged).errors =~= logged);
                }
                if self.peek() == second {
                    self.get_char();
                    return Token::of_kind(double, String::new());
                }
                return Token::of_kind(single, String::new());
            }
            if let Some(kind) = punctuation_of(c) {
                proof {
                    assert(here.after(logged).errors =~= logged);
                }
                return Token::of_kind(kind, String::new());
            }
            if c == '/' {
                proof {
                    assert(here.after(logged).errors =~= logged);
                }
                if self.peek() == '/' {
                    self.get_char();
                    let from = self.position;
                    self.read_line();
                    let text = string_of(&self.chars, from, self.position);
                    if self.position < self.chars.len() {
                        self.get_char();
                    }
                    return Token::Comment(text);
                }
                if self.peek() == '=' {
                    self.get_char();
                    return Token::SlashSelf;
                }
                return Token::Slash;
            }
            if c == '"' || c == '\'' {
                let ghost body = scan_string(self.source(), self.position(), c);
                match self.read_string(c) {
                    Some(text) => {
                        proof {
                            assert(here.after(logged).errors =~= logged + body.errors);
                            assert(self.error_texts() =~= old(self).error_texts() + (logged
                                + body.errors));
                        }
                        return Token::String(text);
                    },
                    None => {
                        let mut message = self.error_head();
                        message.append(": Unterminated string.");
                        self.record(message);
                        proof {
                            assert(here.after(logged).errors =~= logged + body.errors.push(
                                message@,
                            ));
                            assert(self.error_texts() =~= old(self).error_texts() + (logged
                                + body.errors.push(message@)));
                        }
                        return Token::Eof;
                    },
                }
            }
            if digit(c) {
                proof {
                    assert(here.after(logged).errors =~= logged);
                }
                self.read_digits();
                if self.peek() == '.' && digit(self.peek_n(2)) {
                    self.get_char();
                    self.read_digits();
                }
                return Token::Number(string_of(&self.chars, start, self.position));
            }
            if ident_start(c) {
                proof {
                    assert(here.after(logged).errors =~= logged);
                }
                self.read_word();
                let word = string_of(&self.chars, start, self.position);
                return match keyword_of(&word) {
                    Some(kind) => Token::of_kind(kind, String::new()),
                    None => Token::Identifier(word),
                };
            }
            let mut message = self.error_head();
            message.append(": Unexpected character: ");
            push_char(&mut message, c);
            assert(message@ =~= unexpected_character_error(self.source(), self.position(), c));
            self.record(message);
            proof {
                let ghost earlier = logged;
                logged = logged.push(message@);
                assert(scan(self.source(), self.position()).after(logged).errors =~= here.after(
                    earlier,
                ).errors);
                assert(self.error_texts() =~= old(self).error_texts() + logged);
            }
        }
    }
}

/// The text by which a syntax diagnostic names the token it is about.
pub open spec fn blamed_text(token: TokenView) -> Seq<char> {
    if token.kind == TokenKind::Identifier || token.kind == TokenKind::String || token.kind
        == TokenKind::Number {
        token.text
    } else if token.kind == TokenKind::RightParen {
        ")"@
    } else {
        Seq::empty()
    }
}

proof fn lemma_line_breaks_bound(src: Seq<char>, pos: int)
    requires
        0 <= pos <= src.len(),
    ensures
        line_breaks(src, pos) <= pos,
    decreases pos,
{
    if pos > 0 {
        lemma_line_breaks_bound(src, pos - 1);
    }
}

/// How a token of a fixed kind is written; empty for `Eof` and for the
/// kinds that carry text.
#[verifier::opaque]
pub open spec fn fixed_lexeme(kind: TokenKind) -> Seq<char> {
    match kind {
        TokenKind::Var => "var"@,
        TokenKind::And => "and"@,
        TokenKind::Class => "class"@,
        TokenKind::New => "new"@,
        TokenKind::Else => "else"@,
        TokenKind::False => "false"@,
        TokenKind::For => "for"@,
        TokenKind::Fun => "fun"@,
        TokenKind::If => "if"@,
        TokenKind::Nil => "nil"@,
        TokenKind::Or => "or"@,
        TokenKind::Print => "print"@,
        TokenKind::Return => "return"@,
        TokenKind::Super => "super"@,
        TokenKind::This => "this"@,
        TokenKind::True => "true"@,
        TokenKind::While => "while"@,
        TokenKind::Switch => "switch"@,
        TokenKind::Case => "case"@,
        TokenKind::Default => "default"@,
        TokenKind::In => "in"@,
        TokenKind::Import => "import"@,
        TokenKind::Assert => "assert"@,
        TokenKind::Equal => seq!['='],
        TokenKind::Semicolon => seq![';'],
        TokenKind::LeftParen => seq!['('],
        TokenKind::RightParen => seq![')'],
        TokenKind::LeftBrace => seq!['{'],
        TokenKind::RightBrace => seq!['}'],
        TokenKind::LeftBracket => seq!['['],
        TokenKind::RightBracket => seq![']'],
        TokenKind::Star => seq!['*'],
        TokenKind::Slash => seq!['/'],
        TokenKind::Minus => seq!['-'],
        TokenKind::Plus => seq!['+'],
        TokenKind::Mod => seq!['%'],
        TokenKind::Comma => seq![','],
        TokenKind::Dot => seq!['.'],
        TokenKind::Colon => seq![':'],
        TokenKind::PlusSelf => seq!['+', '='],
        TokenKind::MinusSelf => seq!['-', '='],
        TokenKind::StarSelf => seq!['*', '='],
        TokenKind::SlashSelf => seq!['/', '='],
        TokenKind::ModSelf => seq!['%', '='],
        TokenKind::EqualEqual => seq!['=', '='],
        TokenKind::Bang => seq!['!'],
        TokenKind::BangEqual => seq!['!', '='],
        TokenKind::Less => seq!['<'],
        TokenKind::LessEqual => seq!['<', '='],
        TokenKind::Greater => seq!['>'],
        TokenKind::GreaterEqual => seq!['>', '='],
        TokenKind::BitAnd => seq!['&'],
        TokenKind::BitOr => seq!['|'],
        _ => Seq::empty(),
    }
}

/// Whether `span` is a way to write `token` in a source.
///
/// A token of a fixed kind is written in one way, except that `&&` and
/// `||` also stand for `and` and `or`. An identifier or a number is written
/// as its text. A comment is two slashes and its text, with or without the
/// line break that ends it. A string is written between two equal quotes;
/// where it holds no backslash, what stands between them is its text.
#[verifier::opaque]
pub open spec fn spells(span: Seq<char>, token: TokenView) -> bool {
    match token.kind {
        TokenKind::Eof => span.len() == 0,
        TokenKind::Identifier | TokenKind::Number => span == token.text,
        TokenKind::Comment => span == seq!['/', '/'] + token.text || span == (seq!['/', '/']
            + token.text).push('\n'),
        TokenKind::String => {
            &&& span.len() >= 2
            &&& (span[0] == '"' || span[0] == '\'')
            &&& span.last() == span[0]
            &&& (forall|i: int| 0 <= i < span.len() ==> span[i] != '\\') ==> span.subrange(
                1,
                span.len() - 1,
            ) == token.text
        },
        TokenKind::And => span == fixed_lexeme(TokenKind::And) || span == seq!['&', '&'],
        TokenKind::Or => span == fixed_lexeme(TokenKind::Or) || span == seq!['|', '|'],
        kind => span == fixed_lexeme(kind),
    }
}

proof fn lemma_run_ends(src: Seq<char>, pos: int)
    requires
        0 <= pos <= src.len(),
    ensures
        pos <= digits_end(src, pos) <= src.len(),
        pos <= word_end(src, pos) <= src.len(),
        pos <= line_end(src, pos) <= src.len(),
        line_end(src, pos) < src.len() ==> src[line_end(src, pos)] == '\n',
    decreases src.len() - pos,
{
    if pos < src.len() {
        lemma_run_ends(src, pos + 1);
    }
}

proof fn lemma_scan_string_closed(src: Seq<char>, pos: int, quote: char)
    requires
        0 <= pos <= src.len(),
        quote != '\\',
        scan_string(src, pos, quote).closed,
    ensures
        pos < scan_string(src, pos, quote).end <= src.len(),
        src[scan_string(src, pos, quote).end - 1] == quote,
        (forall|i: int| pos <= i < scan_string(src, pos, quote).end ==> src[i] != '\\')
            ==> src.subrange(pos, scan_string(src, pos, quote).end - 1) == scan_string(
            src,
            pos,
            quote,
        ).text,
    decreases src.len() - pos,
{
    let body = scan_string(src, pos, quote);
    if pos < src.len() {
        if src[pos] == quote {
            assert(src.subrange(pos, body.end - 1) =~= body.text);
        } else if src[pos] == '\\' {
            lemma_scan_string_closed(src, pos + 2, quote);
        } else {
            lemma_scan_string_closed(src, pos + 1, quote);
            let rest = scan_string(src, pos + 1, quote);
            if forall|i: int| pos <= i < body.end ==> src[i] != '\\' {
                assert(src.subrange(pos, body.end - 1) =~= seq![src[pos]] + src.subrange(
                    pos + 1,
                    rest.end - 1,
                ));
            }
        }
    }
}

proof fn lemma_operator_spelling(c: char)
    requires
        operator_kinds(c) is Some,
    ensures
        spells(seq![c], TokenView::fixed(operator_kinds(c).unwrap().0)),
        spells(
            seq![c, operator_kinds(c).unwrap().1],
            TokenView::fixed(operator_kinds(c).unwrap().2),
        ),
        operator_kinds(c).unwrap().0 != TokenKind::Eof,
        operator_kinds(c).unwrap().2 != TokenKind::Eof,
{
    reveal(spells);
    reveal(fixed_lexeme);
}

proof fn lemma_punctuation_spelling(c: char)
    requires
        punctuation_kind(c) is Some,
    ensures
        spells(seq![c], TokenView::fixed(punctuation_kind(c).unwrap())),
        punctuation_kind(c).unwrap() != TokenKind::Eof,
{
    reveal(spells);
    reveal(fixed_lexeme);
}

proof fn lemma_keyword_spelling(word: Seq<char>)
    requires
        keyword_kind(word) is Some,
    ensures
        spells(word, TokenView::fixed(keyword_kind(word).unwrap())),
        keyword_kind(word).unwrap() != TokenKind::Eof,
{
    reveal(spells);
    reveal(fixed_lexeme);
}

proof fn lemma_other_spellings(text: Seq<char>)
    ensures
        spells(text, TokenView::with_text(TokenKind::Identifier, text)),
        spells(text, TokenView::with_text(TokenKind::Number, text)),
        spells(seq!['/', '/'] + text, TokenView::with_text(TokenKind::Comment, text)),
        spells((seq!['/', '/'] + text).push('\n'), TokenView::with_text(TokenKind::Comment, text)),
        spells(seq!['/'], TokenView::fixed(TokenKind::Slash)),
        spells(seq!['/', '='], TokenView::fixed(TokenKind::SlashSelf)),
        spells(Seq::empty(), TokenView::fixed(TokenKind::Eof)),
{
    reveal(spells);
    reveal(fixed_lexeme);
}

proof fn lemma_string_spelling(span: Seq<char>, text: Seq<char>)
    requires
        span.len() >= 2,
        span[0] == '"' || span[0] == '\'',
        span.last() == span[0],
        (forall|i: int| 0 <= i < span.len() ==> span[i] != '\\') ==> span.subrange(
            1,
            span.len() - 1,
        ) == text,
    ensures
        spells(span, TokenView::with_text(TokenKind::String, text)),
{
    reveal(spells);
}

proof fn lemma_scan_span(src: Seq<char>, pos: int)
    requires
        0 <= pos <= src.len(),
        scan(src, pos).errors.len() == 0,
    ensures
        pos <= scan(src, pos).start <= scan(src, pos).end <= src.len(),
        forall|i: int| pos <= i < scan(src, pos).start ==> is_blank(src[i]),
        scan(src, pos).token.kind == TokenKind::Eof <==> scan(src, pos).start == src.len(),
    decreases src.len() - pos,
{
    reveal(scan);
    if pos < src.len() {
        let c = src[pos];
        lemma_run_ends(src, pos);
        if is_blank(c) {
            lemma_scan_span(src, pos + 1);
        } else if operator_kinds(c) is Some {
            lemma_operator_spelling(c);
        } else if punctuation_kind(c) is Some {
            lemma_punctuation_spelling(c);
        } else if c == '/' {
            if pos + 1 < src.len() && src[pos + 1] == '/' {
                lemma_run_ends(src, pos + 2);
            }
        } else if c == '"' || c == '\'' {
            if scan_string(src, pos + 1, c).closed {
                lemma_scan_string_closed(src, pos + 1, c);
            }
        } else if is_digit(c) {
            lemma_run_ends(src, pos + 1);
            let whole = digits_end(src, pos);
            if whole + 1 < src.len() {
                lemma_run_ends(src, whole + 1);
            }
        } else if is_ident_start(c) {
            lemma_run_ends(src, pos + 1);
            let word = src.subrange(pos, word_end(src, pos));
            if keyword_kind(word) is Some {
                lemma_keyword_spelling(word);
            }
        } else {
        }
    }
}

proof fn lemma_scan_spells(src: Seq<char>, pos: int)
    requires
        0 <= pos <= src.len(),
        scan(src, pos).errors.len() == 0,
    ensures
        spells(src.subrange(scan(src, pos).start, scan(src, pos).end), scan(src, pos).token),
    decreases src.len() - pos,
{
    reveal(scan);
    lemma_other_spellings(Seq::empty());
    if pos < src.len() {
        let c = src[pos];
        if is_blank(c) {
            lemma_scan_spells(src, pos + 1);
        } else if operator_kinds(c) is Some {
            let (single, second, double) = operator_kinds(c).unwrap();
            lemma_operator_spelling(c);
            if pos + 1 < src.len() && src[pos + 1] == second {
                assert(src.subrange(pos, pos + 2) =~= seq![c, second]);
            } else {
                assert(src.subrange(pos, pos + 1) =~= seq![c]);
            }
        } else if punctuation_kind(c) is Some {
            lemma_punctuation_spelling(c);
            assert(src.subrange(pos, pos + 1) =~= seq![c]);
        } else if c == '/' {
            if pos + 1 < src.len() && src[pos + 1] == '/' {
                lemma_run_ends(src, pos + 2);
                let stop = line_end(src, pos + 2);
                lemma_other_spellings(src.subrange(pos + 2, stop));
                if stop < src.len() {
                    assert(src.subrange(pos, stop + 1) =~= (seq!['/', '/'] + src.subrange(
                        pos + 2,
                        stop,
                    )).push('\n'));
                } else {
                    assert(src.subrange(pos, stop) =~= seq!['/', '/'] + src.subrange(
                        pos + 2,
                        stop,
                    ));
                }
            } else if pos + 1 < src.len() && src[pos + 1] == '=' {
                assert(src.subrange(pos, pos + 2) =~= seq!['/', '=']);
            } else {
                assert(src.subrange(pos, pos + 1) =~= seq!['/']);
            }
        } else if c == '"' || c == '\'' {
            let body = scan_string(src, pos + 1, c);
            if body.closed {
                lemma_scan_string_closed(src, pos + 1, c);
                let span = src.subrange(pos, body.end);
                if forall|i: int| 0 <= i < span.len() ==> span[i] != '\\' {
                    assert forall|i: int| pos + 1 <= i < body.end implies src[i] != '\\' by {
                        assert(span[i - pos] == src[i]);
                    }
                    assert(span.subrange(1, span.len() - 1) =~= src.subrange(
                        pos + 1,
                        body.end - 1,
                    ));
                }
                lemma_string_spelling(span, body.text);
            }
        } else if is_digit(c) {
            lemma_other_spellings(src.subrange(pos, number_end(src, pos)));
        } else if is_ident_start(c) {
            let word = src.subrange(pos, word_end(src, pos));
            lemma_other_spellings(word);
            if keyword_kind(word) is Some {
                lemma_keyword_spelling(word);
            }
        } else {
        }
    } else {
        assert(src.subrange(pos, pos) =~= Seq::<char>::empty());
    }
}

/// Lexing keeps the source: where a step of the lexer raises no
/// diagnostic, it skips nothing but blanks, and the span it reads the token
/// from is a way to write that token. So the blanks and the spans of the
/// tokens, put back in order, are the source again; leaving out the spans
/// of the comments removes the comments and nothing else.
pub proof fn lemma_lex_round_trip(src: Seq<char>, pos: int)
    requires
        0 <= pos <= src.len(),
        scan(src, pos).errors.len() == 0,
    ensures
        pos <= scan(src, pos).start <= scan(src, pos).end <= src.len(),
        forall|i: int| pos <= i < scan(src, pos).start ==> is_blank(src[i]),
        spells(src.subrange(scan(src, pos).start, scan(src, pos).end), scan(src, pos).token),
        scan(src, pos).token.kind == TokenKind::Eof <==> scan(src, pos).start == src.len(),
        src == src.subrange(0, pos) + src.subrange(pos, scan(src, pos).start) + src.subrange(
            scan(src, pos).start,
            scan(src, pos).end,
        ) + src.subrange(scan(src, pos).end, src.len() as int),
{
    let step = scan(src, pos);
    lemma_scan_span(src, pos);
    lemma_scan_spells(src, pos);
    assert(src =~= src.subrange(0, pos) + src.subrange(pos, step.start) + src.subrange(
        step.start,
        step.end,
    ) + src.subrange(step.end, src.len() as int));
}

/// The next token of `src` at or after `pos` that is not a comment, with
/// the diagnostics raised on the way to it.
#[verifier::opaque]
pub open spec fn scan_code(src: Seq<char>, pos: int) -> Scanned
    decreases src.len() - pos,
{
    let step = scan(src, pos);
    if step.token.kind == TokenKind::Comment && pos < step.end <= src.len() {
        scan_code(src, step.end).after(step.errors)
    } else {
        step
    }
}

/// The steps of the lexer from `pos` to the end of the source, comments
/// left out. The last step, and no other, gives `Eof`.
pub open spec fn code_steps(src: Seq<char>, pos: int) -> Seq<Scanned>
    decreases src.len() - pos,
{
    let step = scan_code(src, pos);
    if step.token.kind != TokenKind::Eof && pos < step.end <= src.len() {
        seq![step] + code_steps(src, step.end)
    } else {
        seq![step]
    }
}

/// A step of the lexer ends inside the source and never before the place
/// it started from; one that gives a token other than `Eof` ends after it,
/// and one that gives `Eof` ends where every later step gives `Eof` again
/// and raises nothing.
pub proof fn lemma_scan_progress(src: Seq<char>, pos: int)
    requires
        0 <= pos <= src.len(),
    ensures
        pos <= scan(src, pos).end <= src.len(),
        scan(src, pos).token.kind != TokenKind::Eof ==> pos < scan(src, pos).end,
        scan(src, pos).token.kind == TokenKind::Eof ==> scan(src, pos).end == src.len(),
    decreases src.len() - pos,
{
    reveal(scan);
    if pos < src.len() {
        let c = src[pos];
        lemma_run_ends(src, pos);
        if is_blank(c) {
            lemma_scan_progress(src, pos + 1);
        } else if operator_kinds(c) is Some {
            lemma_operator_spelling(c);
        } else if punctuation_kind(c) is Some {
            lemma_punctuation_spelling(c);
        } else if c == '/' {
            if pos + 1 < src.len() && src[pos + 1] == '/' {
                lemma_run_ends(src, pos + 2);
            }
        } else if c == '"' || c == '\'' {
            if scan_string(src, pos + 1, c).closed {
                lemma_scan_string_closed(src, pos + 1, c);
            }
        } else if is_digit(c) {
            lemma_run_ends(src, pos + 1);
            let whole = digits_end(src, pos);
            if whole + 1 < src.len() {
                lemma_run_ends(src, whole + 1);
            }
        } else if is_ident_start(c) {
            lemma_run_ends(src, pos + 1);
            let word = src.subrange(pos, word_end(src, pos));
            if keyword_kind(word) is Some {
                lemma_keyword_spelling(word);
            }
        } else {
            lemma_scan_progress(src, pos + 1);
        }
    }
}

/// The same for steps that leave comments out.
pub proof fn lemma_scan_code_progress(src: Seq<char>, pos: int)
    requires
        0 <= pos <= src.len(),
    ensures
        pos <= scan_code(src, pos).end <= src.len(),
        scan_code(src, pos).token.kind != TokenKind::Eof ==> pos < scan_code(src, pos).end,
        scan_code(src, pos).token.kind == TokenKind::Eof ==> scan_code(src, pos).end == src.len(),
        scan_code(src, pos).token.kind != TokenKind::Comment,
    decreases src.len() - pos,
{
    reveal(scan_code);
    lemma_scan_progress(src, pos);
    let step = scan(src, pos);
    if step.token.kind == TokenKind::Comment {
        lemma_scan_code_progress(src, step.end);
    }
}

/// At the end of the source every step gives `Eof` and raises nothing.
pub proof fn lemma_scan_at_end(src: Seq<char>)
    ensures
        scan_code(src, src.len() as int) == Scanned::fixed(
            TokenKind::Eof,
            src.len() as int,
            src.len() as int,
        ),
{
    reveal(scan);
    reveal(scan_code);
}

/// The steps of the lexer: there are no more of them than the source has
/// characters, and one; the first is the step from `pos`; the last gives
/// `Eof` and ends at the end of the source.
pub proof fn lemma_code_steps(src: Seq<char>, pos: int)
    requires
        0 <= pos <= src.len(),
    ensures
        1 <= code_steps(src, pos).len() <= src.len() - pos + 1,
        code_steps(src, pos)[0] == scan_code(src, pos),
        code_steps(src, pos).last().token.kind == TokenKind::Eof,
        code_steps(src, pos).last().end == src.len(),
    decreases src.len() - pos,
{
    lemma_scan_code_progress(src, pos);
    let step = scan_code(src, pos);
    if step.token.kind != TokenKind::Eof {
        lemma_code_steps(src, step.end);
        assert(code_steps(src, pos) =~= seq![step] + code_steps(src, step.end));
    }
}

/// The steps of the lexer are linked: each but the last gives a token
/// other than `Eof`, and the next starts where it ended.
pub proof fn lemma_code_step(src: Seq<char>, pos: int, i: int)
    requires
        0 <= pos <= src.len(),
        0 <= i < code_steps(src, pos).len() - 1,
    ensures
        code_steps(src, pos)[i].token.kind != TokenKind::Eof,
        pos <= code_steps(src, pos)[i].end <= src.len(),
        code_steps(src, pos)[i + 1] == scan_code(src, code_steps(src, pos)[i].end),
    decreases i,
{
    lemma_scan_code_progress(src, pos);
    let step = scan_code(src, pos);
    let all = code_steps(src, pos);
    let rest = code_steps(src, step.end);
    assert(all =~= seq![step] + rest);
    lemma_code_steps(src, step.end);
    if i == 0 {
        assert(all[1] == rest[0]);
    } else {
        lemma_code_step(src, step.end, i - 1);
        assert(all[i] == rest[i - 1]);
        assert(all[i + 1] == rest[i]);
    }
}

impl<'a> Lexing<'a> {
    /// The next token of the source that is not a comment.
    pub fn next_code(&mut self) -> (token: Token)
        requires
            old(self).wf(),
        ensures
            final(self).wf(),
            final(self).source() == old(self).source(),
            ({
                let step = scan_code(old(self).source(), old(self).position());
                &&& token@ == step.token
                &&& final(self).position() == step.end
                &&& final(self).error_texts() == old(self).error_texts() + step.errors
            }),
    {
        let ghost mut logged: Seq<Seq<char>> = Seq::empty();
        loop
            invariant
                self.wf(),
                self.source() == old(self).source(),
                old(self).position() <= self.position() <= self.source().len(),
                self.error_texts() == old(self).error_texts() + logged,
                scan_code(old(self).source(), old(self).position()) == scan_code(
                    self.source(),
                    self.position(),
                ).after(logged),
            decreases self.chars.len() - self.position,
        {
            let ghost before = self.position();
            let ghost here = scan(self.source(), before);
            proof {
                reveal(scan_code);
                lemma_scan_progress(self.source(), before);
            }
            let token = self.next();
            match token {
                Token::Comment(_) => {
                    proof {
                        let earlier = logged;
                        logged = logged + here.errors;
                        assert(scan_code(self.source(), self.position()).after(logged).errors
                            =~= scan_code(self.source(), before).after(earlier).errors);
                        assert(self.error_texts() =~= old(self).error_texts() + logged);
                    }
                },
                _ => {
                    proof {
                        assert(self.error_texts() =~= old(self).error_texts() + scan_code(
                            self.source(),
                            before,
                        ).after(logged).errors);
                    }
                    return token;
                },
            }
        }
    }
}

} // verus!
