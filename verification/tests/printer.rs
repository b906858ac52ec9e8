use lox_interpreter::ast::{ExprType, Ident, Literal, Stmt};
use lox_interpreter::lexer::Lexing;
use lox_interpreter::number::{Number, NumberOp, NumberReply, NumberRequest};
use lox_interpreter::parser::Parser;
use lox_interpreter::token::{Token, TokenKind};

fn kernel(request: NumberRequest) -> NumberReply {
    match request {
        NumberRequest::Parse(text) => NumberReply {
            number: Number { bits: text.parse::<f64>().unwrap_or(f64::NAN).to_bits() },
            text: String::new(),
        },
        NumberRequest::Format(n) => {
            NumberReply { number: n, text: format!("{}", f64::from_bits(n.bits)) }
        }
        NumberRequest::Binary(op, a, b) => {
            let (x, y) = (f64::from_bits(a.bits), f64::from_bits(b.bits));
            let r = match op {
                NumberOp::Add => x + y,
                NumberOp::Subtract => x - y,
                NumberOp::Multiply => x * y,
                NumberOp::Divide => x / y,
                NumberOp::Remainder => x % y,
            };
            NumberReply { number: Number { bits: r.to_bits() }, text: String::new() }
        }
    }
}

fn all_tokens(source: &str) -> Vec<Token> {
    let mut lex = Lexing::new(source);
    let mut tokens = Vec::new();
    loop {
        let token = lex.next();
        let end = token == Token::Eof;
        tokens.push(token);
        if end {
            break;
        }
    }
    assert!(!lex.has_errors());
    tokens
}

fn printed_tokens(source: &str) -> Vec<String> {
    all_tokens(source).iter().map(|t| t.to_text(&kernel)).collect()
}

fn printed_program(source: &str) -> Vec<String> {
    let mut parser = Parser::new(Lexing::new(source), kernel);
    let program = parser.parse();
    assert!(!parser.has_errors(), "{:?}", parser.errors());
    program.iter().map(|s| s.to_text(&kernel)).collect()
}

#[test]
fn tokens_print_kind_lexeme_and_literal() {
    assert_eq!(
        printed_tokens("var a = 10;"),
        vec![
            "VAR var null",
            "IDENTIFIER a null",
            "EQUAL = null",
            "NUMBER 10 10.0",
            "SEMICOLON ; null",
            "EOF  null"
        ]
    );
}

#[test]
fn string_and_fraction_tokens_print_their_literal() {
    assert_eq!(
        printed_tokens("\"abc\" 1.5 42.0"),
        vec!["STRING \"abc\" abc", "NUMBER 1.5 1.5", "NUMBER 42.0 42.0", "EOF  null"]
    );
}

#[test]
fn operator_tokens_print_their_names() {
    assert_eq!(
        printed_tokens("( ) { } [ ] == != <= >= += && ||"),
        vec![
            "LEFT_PAREN ( null",
            "RIGHT_PAREN ) null",
            "LEFT_BRACE { null",
            "RIGHT_BRACE } null",
            "LEFT_BRACKET [ null",
            "RIGHT_BRACKET ] null",
            "EQUAL_EQUAL == null",
            "BANG_EQUAL != null",
            "LESS_EQUAL <= null",
            "GREATER_EQUAL >= null",
            "PLUS_SELF += null",
            "AND and null",
            "OR or null",
            "EOF  null"
        ]
    );
}

#[test]
fn comment_token_prints_its_text() {
    assert_eq!(Token::Comment(" note".to_string()).to_text(&kernel), "COMMENT // note null");
}

#[test]
fn a_token_is_its_kind_and_its_text() {
    let token = Token::Identifier("abc".to_string());
    assert_eq!(token.kind(), TokenKind::Identifier);
    assert_eq!(token.text(), "abc");
    assert_eq!(Token::of_kind(TokenKind::Identifier, "abc".to_string()), token);
    assert_eq!(Token::of_kind(TokenKind::Plus, "ignored".to_string()), Token::Plus);
    assert_eq!(Token::Plus.text(), "");
    assert_eq!(token.duplicate(), token);
    assert_eq!(Token::Number("1.5".to_string()).kind(), TokenKind::Number);
}

#[test]
fn lexemes_spell_the_source_again() {
    let sources = [
        "var a = 10;",
        "fun  f(n) {\n\treturn n * f(n - 1);\n}",
        "a += 1; b <= c != d; [1, 2][0]; {x: y}",
        "// only a comment\nvar a; // and another",
    ];
    for source in sources {
        let mut spelled = String::new();
        for token in all_tokens(source) {
            match token {
                Token::Comment(_) => {}
                other => {
                    let printed = other.to_text(&kernel);
                    let lexeme: Vec<&str> = printed.split(' ').collect();
                    spelled.push_str(lexeme[1]);
                }
            }
        }
        let mut expected = String::new();
        for line in source.lines() {
            let code = match line.find("//") {
                Some(at) => &line[..at],
                None => line,
            };
            expected.extend(code.chars().filter(|c| !c.is_whitespace()));
        }
        assert_eq!(spelled, expected, "{}", source);
    }
}

#[test]
fn operators_print_before_their_operands() {
    assert_eq!(printed_program("1 + 2 * 3;"), vec!["(+ 1.0 (* 2.0 3.0))"]);
    assert_eq!(printed_program("(1 + 2) * 3;"), vec!["(* (group (+ 1.0 2.0)) 3.0)"]);
    assert_eq!(printed_program("-a;"), vec!["(- a)"]);
    assert_eq!(printed_program("!true == false;"), vec!["(== (! true) false)"]);
    assert_eq!(printed_program("a && b || c;"), vec!["(|| (&& a b) c)"]);
}

#[test]
fn numbers_print_whole_or_with_their_fraction() {
    assert_eq!(printed_program("10;"), vec!["10.0"]);
    assert_eq!(printed_program("10.25;"), vec!["10.25"]);
    assert_eq!(printed_program("0.0;"), vec!["0.0"]);
}

#[test]
fn literals_print_as_written() {
    assert_eq!(printed_program("\"foo\";"), vec!["foo"]);
    assert_eq!(printed_program("nil;"), vec!["nil"]);
    assert_eq!(printed_program("true;"), vec!["true"]);
    assert_eq!(printed_program("[1, a, \"b\"];"), vec!["[1.0, a, b]"]);
    assert_eq!(printed_program("({\"a\": 1, \"b\": 2});"), vec!["(group {a: 1.0, b: 2.0})"]);
    assert_eq!(ExprType::Literal(Literal::Index(7)).to_text(&kernel), "7");
}

#[test]
fn statements_print_in_their_forms() {
    assert_eq!(printed_program("var a = 1;"), vec!["var a = 1.0"]);
    assert_eq!(printed_program("var a;"), vec!["var a = nil"]);
    assert_eq!(printed_program("return a;"), vec!["return a"]);
    assert_eq!(printed_program("print 1, a;"), vec!["(print 1.0, a)"]);
    assert_eq!(printed_program("import \"lib\";"), vec!["import \"lib\""]);
    assert_eq!(printed_program("assert a > 1, \"no\";"), vec!["assert (> a 1.0), no"]);
    assert_eq!(
        printed_program("fun f(a, b) { return a; }"),
        vec!["fun f(a, b) {\n\treturn a\n}"]
    );
    assert_eq!(printed_program("while (a < 3) { a; }"), vec!["while ((< a 3.0)) {\n\ta\n}"]);
    assert_eq!(printed_program("class C { var x = 1; }"), vec!["class C {\n\tvar x = 1.0\n}"]);
}

#[test]
fn calls_and_members_print_as_written() {
    assert_eq!(printed_program("f(1, a);"), vec!["f(1.0, a)"]);
    assert_eq!(printed_program("a[0];"), vec!["a[0]"]);
    assert_eq!(printed_program("a[2.75];"), vec!["a[2]"]);
    assert_eq!(printed_program("a[i + 1];"), vec!["a[(+ i 1.0)]"]);
    assert_eq!(printed_program("c.get(1);"), vec!["c.get(1.0)"]);
    assert_eq!(printed_program("c.x;"), vec!["c.x"]);
    assert_eq!(printed_program("new C(1, 2);"), vec!["new C(1.0, 2.0)"]);
}

#[test]
fn built_values_print_like_parsed_ones() {
    let built = Stmt::Var(
        Ident("a".to_string()),
        ExprType::InfixExpr(
            Box::new(ExprType::Ident(Ident("b".to_string()))),
            Token::Minus,
            Box::new(ExprType::Literal(Literal::Number(Number { bits: 2.5f64.to_bits() }))),
        ),
    );
    assert_eq!(built.to_text(&kernel), "var a = (- b 2.5)");
    assert_eq!(
        Stmt::Assign(
            ExprType::Ident(Ident("a".to_string())),
            ExprType::Literal(Literal::Nil)
        )
        .to_text(&kernel),
        "a = nil"
    );
    assert_eq!(Stmt::Blank.to_text(&kernel), "");
}
