//! Tokens of the language: the fixed kinds, and the kinds that carry text.

use vstd::prelude::*;

verus! {

/// What a token is, without the text some kinds carry.
#[derive(Debug, Clone, Copy, PartialEq, Eq, Structural)]
pub enum TokenKind {
    Var,
    And,
    Class,
    New,
    Else,
    False,
    For,
    Fun,
    If,
    Nil,
    Or,
    Print,
    Return,
    Super,
    This,
    True,
    While,
    Switch,
    Case,
    Default,
    In,
    Import,
    Assert,
    Identifier,
    Equal,
    String,
    Number,
    Semicolon,
    Eof,
    LeftParen,
    RightParen,
    LeftBrace,
    RightBrace,
    LeftBracket,
    RightBracket,
    Star,
    Slash,
    Minus,
    Plus,
    Mod,
    Comma,
    Dot,
    Colon,
    PlusSelf,
    MinusSelf,
    StarSelf,
    SlashSelf,
    ModSelf,
    EqualEqual,
    Bang,
    BangEqual,
    Less,
    LessEqual,
    Greater,
    GreaterEqual,
    BitAnd,
    BitOr,
    Comment,
}

/// A token as the lexer produces it. Identifiers, strings and numbers carry
/// their text (a string its unescaped contents, a number its digits as
/// written); a comment carries what follows the two slashes.
#[derive(Debug, Clone, PartialEq)]
pub enum Token {
    Var,
    And,
    Class,
    New,
    Else,
    False,
    For,
    Fun,
    If,
    Nil,
    Or,
    Print,
    Return,
    Super,
    This,
    True,
    While,
    Switch,
    Case,
    Default,
    In,
    Import,
    Assert,
    Identifier(String),
    Equal,
    String(String),
    Number(String),
    Semicolon,
    Eof,
    LeftParen,
    RightParen,
    LeftBrace,
    RightBrace,
    LeftBracket,
    RightBracket,
    Star,
    Slash,
    Minus,
    Plus,
    Mod,
    Comma,
    Dot,
    Colon,
    PlusSelf,
    MinusSelf,
    StarSelf,
    SlashSelf,
    ModSelf,
    EqualEqual,
    Bang,
    BangEqual,
    Less,
    LessEqual,
    Greater,
    GreaterEqual,
    BitAnd,
    BitOr,
    Comment(String),
}

/// The mathematical value of a token: its kind and the text it carries
/// (empty for the fixed kinds).
pub struct TokenView {
    pub kind: TokenKind,
    pub text: Seq<char>,
}

impl TokenView {
    /// The value of a token of a fixed kind.
    pub open spec fn fixed(kind: TokenKind) -> TokenView {
        TokenView { kind, text: Seq::empty() }
    }

    /// The value of a token that carries `text`.
    pub open spec fn with_text(kind: TokenKind, text: Seq<char>) -> TokenView {
        TokenView { kind, text }
    }
}

impl TokenKind {
    /// Whether tokens of this kind carry text.
    pub open spec fn carries_text(self) -> bool {
        self == TokenKind::Identifier || self == TokenKind::String || self == TokenKind::Number
            || self == TokenKind::Comment
    }
}

impl View for Token {
    type V = TokenView;

    open spec fn view(&self) -> TokenView {
        match self {
            Token::Var => TokenView::fixed(TokenKind::Var),
            Token::And => TokenView::fixed(TokenKind::And),
            Token::Class => TokenView::fixed(TokenKind::Class),
            Token::New => TokenView::fixed(TokenKind::New),
            Token::Else => TokenView::fixed(TokenKind::Else),
            Token::False => TokenView::fixed(TokenKind::False),
            Token::For => TokenView::fixed(TokenKind::For),
            Token::Fun => TokenView::fixed(TokenKind::Fun),
            Token::If => TokenView::fixed(TokenKind::If),
            Token::Nil => TokenView::fixed(TokenKind::Nil),
            Token::Or => TokenView::fixed(TokenKind::Or),
            Token::Print => TokenView::fixed(TokenKind::Print),
            Token::Return => TokenView::fixed(TokenKind::Return),
            Token::Super => TokenView::fixed(TokenKind::Super),
            Token::This => TokenView::fixed(TokenKind::This),
            Token::True => TokenView::fixed(TokenKind::True),
            Token::While => TokenView::fixed(TokenKind::While),
            Token::Switch => TokenView::fixed(TokenKind::Switch),
            Token::Case => TokenView::fixed(TokenKind::Case),
            Token::Default => TokenView::fixed(TokenKind::Default),
            Token::In => TokenView::fixed(TokenKind::In),
            Token::Import => TokenView::fixed(TokenKind::Import),
            Token::Assert => TokenView::fixed(TokenKind::Assert),
            Token::Identifier(s) => TokenView::with_text(TokenKind::Identifier, s@),
            Token::Equal => TokenView::fixed(TokenKind::Equal),
            Token::String(s) => TokenView::with_text(TokenKind::String, s@),
            Token::Number(s) => TokenView::with_text(TokenKind::Number, s@),
            Token::Semicolon => TokenView::fixed(TokenKind::Semicolon),
            Token::Eof => TokenView::fixed(TokenKind::Eof),
            Token::LeftParen => TokenView::fixed(TokenKind::LeftParen),
            Token::RightParen => TokenView::fixed(TokenKind::RightParen),
            Token::LeftBrace => TokenView::fixed(TokenKind::LeftBrace),
            Token::RightBrace => TokenView::fixed(TokenKind::RightBrace),
            Token::LeftBracket => TokenView::fixed(TokenKind::LeftBracket),
            Token::RightBracket => TokenView::fixed(TokenKind::RightBracket),
            Token::Star => TokenView::fixed(TokenKind::Star),
            Token::Slash => TokenView::fixed(TokenKind::Slash),
            Token::Minus => TokenView::fixed(TokenKind::Minus),
            Token::Plus => TokenView::fixed(TokenKind::Plus),
            Token::Mod => TokenView::fixed(TokenKind::Mod),
            Token::Comma => TokenView::fixed(TokenKind::Comma),
            Token::Dot => TokenView::fixed(TokenKind::Dot),
            Token::Colon => TokenView::fixed(TokenKind::Colon),
            Token::PlusSelf => TokenView::fixed(TokenKind::PlusSelf),
            Token::MinusSelf => TokenView::fixed(TokenKind::MinusSelf),
            Token::StarSelf => TokenView::fixed(TokenKind::StarSelf),
            Token::SlashSelf => TokenView::fixed(TokenKind::SlashSelf),
            Token::ModSelf => TokenView::fixed(TokenKind::ModSelf),
            Token::EqualEqual => TokenView::fixed(TokenKind::EqualEqual),
            Token::Bang => TokenView::fixed(TokenKind::Bang),
            Token::BangEqual => TokenView::fixed(TokenKind::BangEqual),
            Token::Less => TokenView::fixed(TokenKind::Less),
            Token::LessEqual => TokenView::fixed(TokenKind::LessEqual),
            Token::Greater => TokenView::fixed(TokenKind::Greater),
            Token::GreaterEqual => TokenView::fixed(TokenKind::GreaterEqual),
            Token::BitAnd => TokenView::fixed(TokenKind::BitAnd),
            Token::BitOr => TokenView::fixed(TokenKind::BitOr),
            Token::Comment(s) => TokenView::with_text(TokenKind::Comment, s@),
        }
    }
}

impl Token {
    /// The kind of this token.
    pub fn kind(&self) -> (k: TokenKind)
        ensures
            k == self@.kind,
    {
        match self {
            Token::Var => TokenKind::Var,
            Token::And => TokenKind::And,
            Token::Class => TokenKind::Class,
            Token::New => TokenKind::New,
            Token::Else => TokenKind::Else,
            Token::False => TokenKind::False,
            Token::For => TokenKind::For,
            Token::Fun => TokenKind::Fun,
            Token::If => TokenKind::If,
            Token::Nil => TokenKind::Nil,
            Token::Or => TokenKind::Or,
            Token::Print => TokenKind::Print,
            Token::Return => TokenKind::Return,
            Token::Super => TokenKind::Super,
            Token::This => TokenKind::This,
            Token::True => TokenKind::True,
            Token::While => TokenKind::While,
            Token::Switch => TokenKind::Switch,
            Token::Case => TokenKind::Case,
            Token::Default => TokenKind::Default,
            Token::In => TokenKind::In,
            Token::Import => TokenKind::Import,
            Token::Assert => TokenKind::Assert,
            Token::Identifier(_) => TokenKind::Identifier,
            Token::Equal => TokenKind::Equal,
            Token::String(_) => TokenKind::String,
            Token::Number(_) => TokenKind::Number,
            Token::Semicolon => TokenKind::Semicolon,
            Token::Eof => TokenKind::Eof,
            Token::LeftParen => TokenKind::LeftParen,
            Token::RightParen => TokenKind::RightParen,
            Token::LeftBrace => TokenKind::LeftBrace,
            Token::RightBrace => TokenKind::RightBrace,
            Token::LeftBracket => TokenKind::LeftBracket,
            Token::RightBracket => TokenKind::RightBracket,
            Token::Star => TokenKind::Star,
            Token::Slash => TokenKind::Slash,
            Token::Minus => TokenKind::Minus,
            Token::Plus => TokenKind::Plus,
            Token::Mod => TokenKind::Mod,
            Token::Comma => TokenKind::Comma,
            Token::Dot => TokenKind::Dot,
            Token::Colon => TokenKind::Colon,
            Token::PlusSelf => TokenKind::PlusSelf,
            Token::MinusSelf => TokenKind::MinusSelf,
            Token::StarSelf => TokenKind::StarSelf,
            Token::SlashSelf => TokenKind::SlashSelf,
            Token::ModSelf => TokenKind::ModSelf,
            Token::EqualEqual => TokenKind::EqualEqual,
            Token::Bang => TokenKind::Bang,
            Token::BangEqual => TokenKind::BangEqual,
            Token::Less => TokenKind::Less,
            Token::LessEqual => TokenKind::LessEqual,
            Token::Greater => TokenKind::Greater,
            Token::GreaterEqual => TokenKind::GreaterEqual,
            Token::BitAnd => TokenKind::BitAnd,
            Token::BitOr => TokenKind::BitOr,
            Token::Comment(_) => TokenKind::Comment,
        }
    }

    /// The text this token carries; empty for the fixed kinds.
    pub fn text(&self) -> (t: String)
        ensures
            t@ == self@.text,
    {
        match self {
            Token::Identifier(s) => s.clone(),
            Token::String(s) => s.clone(),
            Token::Number(s) => s.clone(),
            Token::Comment(s) => s.clone(),
            _ => String::new(),
        }
    }

    /// A token of kind `kind` carrying `text` (dropped for the fixed kinds).
    pub fn of_kind(kind: TokenKind, text: String) -> (t: Token)
        ensures
            t@.kind == kind,
            t@.text == if kind.carries_text() {
                text@
            } else {
                Seq::<char>::empty()
            },
    {
        match kind {
            TokenKind::Var => Token::Var,
            TokenKind::And => Token::And,
            TokenKind::Class => Token::Class,
            TokenKind::New => Token::New,
            TokenKind::Else => Token::Else,
            TokenKind::False => Token::False,
            TokenKind::For => Token::For,
            TokenKind::Fun => Token::Fun,
            TokenKind::If => Token::If,
            TokenKind::Nil => Token::Nil,
            TokenKind::Or => Token::Or,
            TokenKind::Print => Token::Print,
            TokenKind::Return => Token::Return,
            TokenKind::Super => Token::Super,
            TokenKind::This => Token::This,
            TokenKind::True => Token::True,
            TokenKind::While => Token::While,
            TokenKind::Switch => Token::Switch,
            TokenKind::Case => Token::Case,
            TokenKind::Default => Token::Default,
            TokenKind::In => Token::In,
            TokenKind::Import => Token::Import,
            TokenKind::Assert => Token::Assert,
            TokenKind::Identifier => Token::Identifier(text),
            TokenKind::Equal => Token::Equal,
            TokenKind::String => Token::String(text),
            TokenKind::Number => Token::Number(text),
            TokenKind::Semicolon => Token::Semicolon,
            TokenKind::Eof => Token::Eof,
            TokenKind::LeftParen => Token::LeftParen,
            TokenKind::RightParen => Token::RightParen,
            TokenKind::LeftBrace => Token::LeftBrace,
            TokenKind::RightBrace => Token::RightBrace,
            TokenKind::LeftBracket => Token::LeftBracket,
            TokenKind::RightBracket => Token::RightBracket,
            TokenKind::Star => Token::Star,
            TokenKind::Slash => Token::Slash,
            TokenKind::Minus => Token::Minus,
            TokenKind::Plus => Token::Plus,
            TokenKind::Mod => Token::Mod,
            TokenKind::Comma => Token::Comma,
            TokenKind::Dot => Token::Dot,
            TokenKind::Colon => Token::Colon,
            TokenKind::PlusSelf => Token::PlusSelf,
            TokenKind::MinusSelf => Token::MinusSelf,
            TokenKind::StarSelf => Token::StarSelf,
            TokenKind::SlashSelf => Token::SlashSelf,
            TokenKind::ModSelf => Token::ModSelf,
            TokenKind::EqualEqual => Token::EqualEqual,
            TokenKind::Bang => Token::Bang,
            TokenKind::BangEqual => Token::BangEqual,
            TokenKind::Less => Token::Less,
            TokenKind::LessEqual => Token::LessEqual,
            TokenKind::Greater => Token::Greater,
            TokenKind::GreaterEqual => Token::GreaterEqual,
            TokenKind::BitAnd => Token::BitAnd,
            TokenKind::BitOr => Token::BitOr,
            TokenKind::Comment => Token::Comment(text),
        }
    }

    /// A copy of this token.
    pub fn duplicate(&self) -> (t: Token)
        ensures
            t@ == self@,
    {
        let t = Token::of_kind(self.kind(), self.text());
        t
    }
}

} // verus!
