//! The printed form of a token: its kind in capitals, its lexeme, and its
//! literal value or `null`.

use super::number_text;

use crate::number::{
    format_number, lawful, model_of, parse_number, Arithmetic, NumberReply, NumberRequest,
};
use crate::token::{Token, TokenKind, TokenView};
use vstd::prelude::*;

verus! {

/// The name of a kind of token, in capitals.
pub open spec fn kind_name(kind: TokenKind) -> Seq<char> {
    match kind {
        TokenKind::Var => "VAR"@,
        TokenKind::And => "AND"@,
        TokenKind::Class => "CLASS"@,
        TokenKind::New => "NEW"@,
        TokenKind::Else => "ELSE"@,
        TokenKind::False => "FALSE"@,
        TokenKind::For => "FOR"@,
        TokenKind::Fun => "FUN"@,
        TokenKind::If => "IF"@,
        TokenKind::Nil => "NIL"@,
        TokenKind::Or => "OR"@,
        TokenKind::Print => "PRINT"@,
        TokenKind::Return => "RETURN"@,
        TokenKind::Super => "SUPER"@,
        TokenKind::This => "THIS"@,
        TokenKind::True => "TRUE"@,
        TokenKind::While => "WHILE"@,
        TokenKind::Switch => "SWITCH"@,
        TokenKind::Case => "CASE"@,
        TokenKind::Default => "DEFAULT"@,
        TokenKind::In => "IN"@,
        TokenKind::Import => "IMPORT"@,
        TokenKind::Assert => "ASSERT"@,
        TokenKind::Identifier => "IDENTIFIER"@,
        TokenKind::Equal => "EQUAL"@,
        TokenKind::String => "STRING"@,
        TokenKind::Number => "NUMBER"@,
        TokenKind::Semicolon => "SEMICOLON"@,
        TokenKind::Eof => "EOF"@,
        TokenKind::LeftParen => "LEFT_PAREN"@,
        TokenKind::RightParen => "RIGHT_PAREN"@,
        TokenKind::LeftBrace => "LEFT_BRACE"@,
        TokenKind::RightBrace => "RIGHT_BRACE"@,
        TokenKind::LeftBracket => "LEFT_BRACKET"@,
        TokenKind::RightBracket => "RIGHT_BRACKET"@,
        TokenKind::Star => "STAR"@,
        TokenKind::Slash => "SLASH"@,
        TokenKind::Minus => "MINUS"@,
        TokenKind::Plus => "PLUS"@,
        TokenKind::Mod => "MOD"@,
        TokenKind::Comma => "COMMA"@,
        TokenKind::Dot => "DOT"@,
        TokenKind::Colon => "COLON"@,
        TokenKind::PlusSelf => "PLUS_SELF"@,
        TokenKind::MinusSelf => "MINUS_SELF"@,
        TokenKind::StarSelf => "STAR_SELF"@,
        TokenKind::SlashSelf => "SLASH_SELF"@,
        TokenKind::ModSelf => "MOD_SELF"@,
        TokenKind::EqualEqual => "EQUAL_EQUAL"@,
        TokenKind::Bang => "BANG"@,
        TokenKind::BangEqual => "BANG_EQUAL"@,
        TokenKind::Less => "LESS"@,
        TokenKind::LessEqual => "LESS_EQUAL"@,
        TokenKind::Greater => "GREATER"@,
        TokenKind::GreaterEqual => "GREATER_EQUAL"@,
        TokenKind::BitAnd => "BIT_AND"@,
        TokenKind::BitOr => "BIT_OR"@,
        TokenKind::Comment => "COMMENT"@,
    }
}

/// How a token of a fixed kind is written in the printed form: as in a
/// source; `and` and `or` as the words.
pub open spec fn printed_lexeme(kind: TokenKind) -> Seq<char> {
    match kind {
        TokenKind::Var => "var"@,
        TokenKind::And => "and"@,
        TokenKind::Class => "class"@,
        TokenKind::New => "new"@,
        TokenKind::Else => "else"@,
        TokenKind::False => "false"@,
        TokenKind::For => "for"@,
        TokenKind::Fun => "fun"@,
        TokenKind::If => "if"@,
        TokenKind::Nil => "nil"@,
        TokenKind::Or => "or"@,
        TokenKind::Print => "print"@,
        TokenKind::Return => "return"@,
        TokenKind::Super => "super"@,
        TokenKind::This => "this"@,
        TokenKind::True => "true"@,
        TokenKind::While => "while"@,
        TokenKind::Switch => "switch"@,
        TokenKind::Case => "case"@,
        TokenKind::Default => "default"@,
        TokenKind::In => "in"@,
        TokenKind::Import => "import"@,
        TokenKind::Assert => "assert"@,
        TokenKind::Equal => "="@,
        TokenKind::Semicolon => ";"@,
        TokenKind::LeftParen => "("@,
        TokenKind::RightParen => ")"@,
        TokenKind::LeftBrace => "{"@,
        TokenKind::RightBrace => "}"@,
        TokenKind::LeftBracket => "["@,
        TokenKind::RightBracket => "]"@,
        TokenKind::Star => "*"@,
        TokenKind::Slash => "/"@,
        TokenKind::Minus => "-"@,
        TokenKind::Plus => "+"@,
        TokenKind::Mod => "%"@,
        TokenKind::Comma => ","@,
        TokenKind::Dot => "."@,
        TokenKind::Colon => ":"@,
        TokenKind::PlusSelf => "+="@,
        TokenKind::MinusSelf => "-="@,
        TokenKind::StarSelf => "*="@,
        TokenKind::SlashSelf => "/="@,
        TokenKind::ModSelf => "%="@,
        TokenKind::EqualEqual => "=="@,
        TokenKind::Bang => "!"@,
        TokenKind::BangEqual => "!="@,
        TokenKind::Less => "<"@,
        TokenKind::LessEqual => "<="@,
        TokenKind::Greater => ">"@,
        TokenKind::GreaterEqual => ">="@,
        TokenKind::BitAnd => "&"@,
        TokenKind::BitOr => "|"@,
        _ => ""@,
    }
}

/// The printed form of a token: `KIND lexeme literal`.
///
/// A string is written between double quotes and has its contents as
/// literal; a number has as literal the number it denotes, printed as a
/// number literal is; every other token has the literal `null`.
pub open spec fn token_text(t: TokenView, arithmetic: Arithmetic) -> Seq<char> {
    match t.kind {
        TokenKind::Identifier => "IDENTIFIER "@ + t.text + " null"@,
        TokenKind::String => "STRING \""@ + t.text + "\" "@ + t.text,
        TokenKind::Number => "NUMBER "@ + t.text + " "@ + number_text(
            arithmetic.format,
            (arithmetic.parse)(t.text),
        ),
        TokenKind::Comment => "COMMENT //"@ + t.text + " null"@,
        kind => kind_name(kind) + " "@ + printed_lexeme(kind) + " null"@,
    }
}

fn name_of(kind: TokenKind) -> (s: &'static str)
    ensures
        s@ == kind_name(kind),
{
    match kind {
        TokenKind::Var => "VAR",
        TokenKind::And => "AND",
        TokenKind::Class => "CLASS",
        TokenKind::New => "NEW",
        TokenKind::Else => "ELSE",
        TokenKind::False => "FALSE",
        TokenKind::For => "FOR",
        TokenKind::Fun => "FUN",
        TokenKind::If => "IF",
        TokenKind::Nil => "NIL",
        TokenKind::Or => "OR",
        TokenKind::Print => "PRINT",
        TokenKind::Return => "RETURN",
        TokenKind::Super => "SUPER",
        TokenKind::This => "THIS",
        TokenKind::True => "TRUE",
        TokenKind::While => "WHILE",
        TokenKind::Switch => "SWITCH",
        TokenKind::Case => "CASE",
        TokenKind::Default => "DEFAULT",
        TokenKind::In => "IN",
        TokenKind::Import => "IMPORT",
        TokenKind::Assert => "ASSERT",
        TokenKind::Identifier => "IDENTIFIER",
        TokenKind::Equal => "EQUAL",
        TokenKind::String => "STRING",
        TokenKind::Number => "NUMBER",
        TokenKind::Semicolon => "SEMICOLON",
        TokenKind::Eof => "EOF",
        TokenKind::LeftParen => "LEFT_PAREN",
        TokenKind::RightParen => "RIGHT_PAREN",
        TokenKind::LeftBrace => "LEFT_BRACE",
        TokenKind::RightBrace => "RIGHT_BRACE",
        TokenKind::LeftBracket => "LEFT_BRACKET",
        TokenKind::RightBracket => "RIGHT_BRACKET",
        TokenKind::Star => "STAR",
        TokenKind::Slash => "SLASH",
        TokenKind::Minus => "MINUS",
        TokenKind::Plus => "PLUS",
        TokenKind::Mod => "MOD",
        TokenKind::Comma => "COMMA",
        TokenKind::Dot => "DOT",
        TokenKind::Colon => "COLON",
        TokenKind::PlusSelf => "PLUS_SELF",
        TokenKind::MinusSelf => "MINUS_SELF",
        TokenKind::StarSelf => "STAR_SELF",
        TokenKind::SlashSelf => "SLASH_SELF",
        TokenKind::ModSelf => "MOD_SELF",
        TokenKind::EqualEqual => "EQUAL_EQUAL",
        TokenKind::Bang => "BANG",
        TokenKind::BangEqual => "BANG_EQUAL",
        TokenKind::Less => "LESS",
        TokenKind::LessEqual => "LESS_EQUAL",
        TokenKind::Greater => "GREATER",
        TokenKind::GreaterEqual => "GREATER_EQUAL",
        TokenKind::BitAnd => "BIT_AND",
        TokenKind::BitOr => "BIT_OR",
        TokenKind::Comment => "COMMENT",
    }
}

fn lexeme_of(kind: TokenKind) -> (s: &'static str)
    ensures
        s@ == printed_lexeme(kind),
{
    match kind {
        TokenKind::Var => "var",
        TokenKind::And => "and",
        TokenKind::Class => "class",
        TokenKind::New => "new",
        TokenKind::Else => "else",
        TokenKind::False => "false",
        TokenKind::For => "for",
        TokenKind::Fun => "fun",
        TokenKind::If => "if",
        TokenKind::Nil => "nil",
        TokenKind::Or => "or",
        TokenKind::Print => "print",
        TokenKind::Return => "return",
        TokenKind::Super => "super",
        TokenKind::This => "this",
        TokenKind::True => "true",
        TokenKind::While => "while",
        TokenKind::Switch => "switch",
        TokenKind::Case => "case",
        TokenKind::Default => "default",
        TokenKind::In => "in",
        TokenKind::Import => "import",
        TokenKind::Assert => "assert",
        TokenKind::Equal => "=",
        TokenKind::Semicolon => ";",
        TokenKind::LeftParen => "(",
        TokenKind::RightParen => ")",
        TokenKind::LeftBrace => "{",
        TokenKind::RightBrace => "}",
        TokenKind::LeftBracket => "[",
        TokenKind::RightBracket => "]",
        TokenKind::Star => "*",
        TokenKind::Slash => "/",
        TokenKind::Minus => "-",
        TokenKind::Plus => "+",
        TokenKind::Mod => "%",
        TokenKind::Comma => ",",
        TokenKind::Dot => ".",
        TokenKind::Colon => ":",
        TokenKind::PlusSelf => "+=",
        TokenKind::MinusSelf => "-=",
        TokenKind::StarSelf => "*=",
        TokenKind::SlashSelf => "/=",
        TokenKind::ModSelf => "%=",
        TokenKind::EqualEqual => "==",
        TokenKind::Bang => "!",
        TokenKind::BangEqual => "!=",
        TokenKind::Less => "<",
        TokenKind::LessEqual => "<=",
        TokenKind::Greater => ">",
        TokenKind::GreaterEqual => ">=",
        TokenKind::BitAnd => "&",
        TokenKind::BitOr => "|",
        _ => "",
    }
}

/// Appends to `out` how the number `n` is printed as a literal.
pub fn push_number<K: Fn(NumberRequest) -> NumberReply>(
    out: &mut String,
    n: crate::number::Number,
    numbers: &K,
)
    requires
        lawful(numbers),
    ensures
        final(out)@ == old(out)@ + number_text(model_of(numbers).format, n),
{
    let text = format_number(numbers, n);
    if n.integral() {
        let mut text = text;
        text.append(".0");
        out.append(text.as_str());
    } else {
        out.append(text.as_str());
    }
}

impl Token {
    /// The printed form of this token.
    pub fn to_text<K: Fn(NumberRequest) -> NumberReply>(&self, numbers: &K) -> (s: String)
        requires
            lawful(numbers),
        ensures
            s@ == token_text(self@, model_of(numbers)),
    {
        match self {
            Token::Identifier(t) => {
                let mut s = String::from_str("IDENTIFIER ");
                s.append(t.as_str());
                s.append(" null");
                s
            },
            Token::String(t) => {
                let mut s = String::from_str("STRING \"");
                s.append(t.as_str());
                s.append("\" ");
                s.append(t.as_str());
                s
            },
            Token::Number(t) => {
                let mut s = String::from_str("NUMBER ");
                s.append(t.as_str());
                s.append(" ");
                let n = parse_number(numbers, t.as_str());
                push_number(&mut s, n, numbers);
                s
            },
            Token::Comment(t) => {
                let mut s = String::from_str("COMMENT //");
                s.append(t.as_str());
                s.append(" null");
                s
            },
            _ => {
                let kind = self.kind();
                let mut s = String::from_str(name_of(kind));
                s.append(" ");
                s.append(lexeme_of(kind));
                s.append(" null");
                s
            },
        }
    }
}

} // verus!
