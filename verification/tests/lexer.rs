use lox_interpreter::lexer::Lexing;
use lox_interpreter::token::Token;

fn tokens_of(input: &str) -> (Vec<Token>, Vec<String>) {
    let mut lex = Lexing::new(input);
    let mut tokens = Vec::new();
    loop {
        let tok = lex.next();
        tokens.push(tok.clone());
        if tok == Token::Eof {
            break;
        }
    }
    (tokens, lex.errors.clone())
}

#[test]
fn test_lexing() {
    let input = "var a = 10;";
    let mut lex = Lexing::new(input);
    let mut tokens = Vec::new();
    loop {
        let tok = lex.next();
        tokens.push(tok.clone());
        if tok == Token::Eof {
            break;
        }
    }
    assert_eq!(
        tokens,
        vec![
            Token::Var,
            Token::Identifier("a".to_string()),
            Token::Equal,
            Token::Number("10".to_string()),
            Token::Semicolon,
            Token::Eof,
        ]
    );
}

#[test]
fn lexes_two_character_operators() {
    let (tokens, errors) = tokens_of("== != <= >= && || += -= *= /= %= = ! < > & | + - * / %");
    assert!(errors.is_empty());
    assert_eq!(
        tokens,
        vec![
            Token::EqualEqual,
            Token::BangEqual,
            Token::LessEqual,
            Token::GreaterEqual,
            Token::And,
            Token::Or,
            Token::PlusSelf,
            Token::MinusSelf,
            Token::StarSelf,
            Token::SlashSelf,
            Token::ModSelf,
            Token::Equal,
            Token::Bang,
            Token::Less,
            Token::Greater,
            Token::BitAnd,
            Token::BitOr,
            Token::Plus,
            Token::Minus,
            Token::Star,
            Token::Slash,
            Token::Mod,
            Token::Eof,
        ]
    );
}

#[test]
fn lexes_keywords_and_identifiers() {
    let (tokens, errors) = tokens_of("var and or class new else false for fun if nil print return super this true while switch case default in import assert Var _x1 whiles");
    assert!(errors.is_empty());
    assert_eq!(
        tokens,
        vec![
            Token::Var,
            Token::And,
            Token::Or,
            Token::Class,
            Token::New,
            Token::Else,
            Token::False,
            Token::For,
            Token::Fun,
            Token::If,
            Token::Nil,
            Token::Print,
            Token::Return,
            Token::Super,
            Token::This,
            Token::True,
            Token::While,
            Token::Switch,
            Token::Case,
            Token::Default,
            Token::In,
            Token::Import,
            Token::Assert,
            Token::Identifier("Var".to_string()),
            Token::Identifier("_x1".to_string()),
            Token::Identifier("whiles".to_string()),
            Token::Eof,
        ]
    );
}

#[test]
fn lexes_numbers_with_and_without_fraction() {
    let (tokens, errors) = tokens_of("12 3.50 7. 1.2.3");
    assert!(errors.is_empty());
    assert_eq!(
        tokens,
        vec![
            Token::Number("12".to_string()),
            Token::Number("3.50".to_string()),
            Token::Number("7".to_string()),
            Token::Dot,
            Token::Number("1.2".to_string()),
            Token::Dot,
            Token::Number("3".to_string()),
            Token::Eof,
        ]
    );
}

#[test]
fn lexes_strings_with_escapes() {
    let (tokens, errors) = tokens_of("\"a\\nb\\t\\\\\\\"c\" 'it\\'s' \"\\0\\r\"");
    assert!(errors.is_empty());
    assert_eq!(
        tokens,
        vec![
            Token::String("a\nb\t\\\"c".to_string()),
            Token::String("it's".to_string()),
            Token::String("\0\r".to_string()),
            Token::Eof,
        ]
    );
}

#[test]
fn unknown_escape_is_recorded_and_skipped() {
    let (tokens, errors) = tokens_of("\"a\\qb\"");
    assert_eq!(tokens, vec![Token::String("ab".to_string()), Token::Eof]);
    assert_eq!(errors, vec!["[line 1] Error: Unknown escape character: q".to_string()]);
}

#[test]
fn unterminated_string_is_recorded() {
    let (tokens, errors) = tokens_of("var s = \"abc\nxyz");
    assert_eq!(
        tokens,
        vec![Token::Var, Token::Identifier("s".to_string()), Token::Equal, Token::Eof]
    );
    assert_eq!(errors, vec!["[line 2] Error: Unterminated string.".to_string()]);
}

#[test]
fn unexpected_character_is_recorded_with_its_line() {
    let (tokens, errors) = tokens_of("a\n\n@ b #");
    assert_eq!(
        tokens,
        vec![
            Token::Identifier("a".to_string()),
            Token::Identifier("b".to_string()),
            Token::Eof
        ]
    );
    assert_eq!(
        errors,
        vec![
            "[line 3] Error: Unexpected character: @".to_string(),
            "[line 3] Error: Unexpected character: #".to_string()
        ]
    );
}

#[test]
fn comments_are_tokens_of_their_own() {
    let (tokens, errors) = tokens_of("a // rest of line\nb //end");
    assert!(errors.is_empty());
    assert_eq!(
        tokens,
        vec![
            Token::Identifier("a".to_string()),
            Token::Comment(" rest of line".to_string()),
            Token::Identifier("b".to_string()),
            Token::Comment("end".to_string()),
            Token::Eof
        ]
    );
}

#[test]
fn empty_source_is_just_eof() {
    let (tokens, errors) = tokens_of("");
    assert!(errors.is_empty());
    assert_eq!(tokens, vec![Token::Eof]);
    let (tokens, _) = tokens_of(" \n\t ");
    assert_eq!(tokens, vec![Token::Eof]);
}

#[test]
fn has_errors_follows_the_diagnostics() {
    let mut lex = Lexing::new("a $");
    assert!(!lex.has_errors());
    lex.next();
    assert!(!lex.has_errors());
    lex.next();
    assert!(lex.has_errors());
}

#[test]
fn log_error_names_the_token_and_the_line() {
    let mut lex = Lexing::new("a\nb");
    lex.next();
    lex.next();
    lex.log_error(Token::Identifier("b".to_string()), "Expect expression");
    lex.log_error(Token::RightParen, "Expect ';' after return");
    lex.log_error(Token::Semicolon, "oops");
    assert_eq!(
        lex.errors,
        vec![
            "[line 2] Error at 'b': Expect expression.".to_string(),
            "[line 2] Error at ')': Expect ';' after return.".to_string(),
            "[line 2] Error at '': oops.".to_string()
        ]
    );
}

#[test]
fn reserved_words_are_keywords() {
    let lex = Lexing::new("");
    for word in [
        "var", "and", "or", "class", "new", "else", "false", "for", "fun", "if", "nil", "print",
        "return", "super", "this", "true", "while", "switch", "case", "default", "in", "import",
        "assert",
    ] {
        assert!(lex.is_keyword(&word.to_string()), "{}", word);
    }
    for word in ["Var", "variable", "", "iff", "_", "println", "len"] {
        assert!(!lex.is_keyword(&word.to_string()), "{}", word);
    }
}
