use lox_interpreter::ast::{ExprType, Ident, Literal, Stmt};
use lox_interpreter::lexer::Lexing;
use lox_interpreter::number::{Number, NumberOp, NumberReply, NumberRequest};
use lox_interpreter::parser::Parser;
use lox_interpreter::token::Token;

fn kernel(request: NumberRequest) -> NumberReply {
    match request {
        NumberRequest::Parse(text) => NumberReply {
            number: Number { bits: text.parse::<f64>().unwrap_or(f64::NAN).to_bits() },
            text: String::new(),
        },
        NumberRequest::Format(n) => {
            NumberReply { number: n, text: format!("{}", f64::from_bits(n.bits)) }
        }
        NumberRequest::Binary(op, a, b) => {
            let (x, y) = (f64::from_bits(a.bits), f64::from_bits(b.bits));
            let r = match op {
                NumberOp::Add => x + y,
                NumberOp::Subtract => x - y,
                NumberOp::Multiply => x * y,
                NumberOp::Divide => x / y,
                NumberOp::Remainder => x % y,
            };
            NumberReply { number: Number { bits: r.to_bits() }, text: String::new() }
        }
    }
}

fn num(value: f64) -> ExprType {
    ExprType::Literal(Literal::Number(Number { bits: value.to_bits() }))
}

fn parse_source(input: &str) -> (Vec<Stmt>, Vec<String>) {
    let lex = Lexing::new(input);
    let mut parse = Parser::new(lex, kernel);
    let program = parse.parse();
    let errors = parse.errors().clone();
    (program, errors)
}

#[test]
fn test_var() {
    let input = "var a = 10;".to_string();
    let lex: Lexing<'_> = Lexing::new(&input);
    let mut parse = Parser::new(lex, kernel);
    let program = parse.parse();
    assert_eq!(program.len(), 1);
    assert_eq!(program, vec![Stmt::Var(Ident(String::from("a")), num(10.0)),]);
}

#[test]
fn parser_test_nagetive_number() {
    let input = "var a = -10;".to_string();
    let lex: Lexing<'_> = Lexing::new(&input);
    let mut parse = Parser::new(lex, kernel);
    let program = parse.parse();
    assert_eq!(program.len(), 1);
    assert_eq!(
        program,
        vec![Stmt::Var(
            Ident(String::from("a")),
            ExprType::PrefixExpr(Token::Minus, Box::new(num(10.0)))
        ),]
    );
}

#[test]
fn test_parser() {
    let input = "1 + 2 * 3;".to_string();
    let lex: Lexing<'_> = Lexing::new(&input);
    println!("lex: {:?}", lex.errors);
    let mut parse = Parser::new(lex, kernel);
    let program = parse.parse();
    assert_eq!(program.len(), 1);
    assert_eq!(
        program,
        vec![Stmt::Expr(ExprType::InfixExpr(
            Box::new(num(1.0)),
            Token::Plus,
            Box::new(ExprType::InfixExpr(Box::new(num(2.0)), Token::Star, Box::new(num(3.0))))
        ))]
    )
}

#[test]
fn test_grouped() {
    let input = "(24 * -74 / (61 * 77))".to_string();
    let lex: Lexing<'_> = Lexing::new(&input);
    let mut parse = Parser::new(lex, kernel);
    let program = parse.parse();
    assert_eq!(program.len(), 1);
    println!("{:?}", program[0]);
}

#[test]
fn test_arithmetic_operators_1() {
    let input = "16 * 38 / 58".to_string();
    let lex: Lexing<'_> = Lexing::new(&input);
    let mut parse = Parser::new(lex, kernel);
    let program = parse.parse();
    assert_eq!(program.len(), 1);
    assert_eq!(
        program,
        vec![Stmt::Expr(ExprType::InfixExpr(
            Box::new(ExprType::InfixExpr(Box::new(num(16.0)), Token::Star, Box::new(num(38.0)),)),
            Token::Slash,
            Box::new(num(58.0))
        ))]
    );
}

#[test]
fn test_arithmetic_operators_2() {
    let input = "(11 * -77 / (98 * 67))".to_string();
    let lex: Lexing<'_> = Lexing::new(&input);
    let mut parse = Parser::new(lex, kernel);
    let program = parse.parse();
    assert_eq!(program.len(), 1);
}

#[test]
fn test_double_minutes() {
    let input = "var a = 10; var b = 20; var c = a - -b;".to_string();
    let lex: Lexing<'_> = Lexing::new(&input);
    let mut parse = Parser::new(lex, kernel);
    let program = parse.parse();
    assert_eq!(program.len(), 3);
    assert_eq!(
        program,
        vec![
            Stmt::Var(Ident(String::from("a")), num(10.0)),
            Stmt::Var(Ident(String::from("b")), num(20.0)),
            Stmt::Var(
                Ident(String::from("c")),
                ExprType::InfixExpr(
                    Box::new(ExprType::Ident(Ident(String::from("a")))),
                    Token::Minus,
                    Box::new(ExprType::PrefixExpr(
                        Token::Minus,
                        Box::new(ExprType::Ident(Ident(String::from("b"))))
                    ))
                )
            )
        ]
    );
}

#[test]
fn test_bang_true() {
    let input = "!true";
    let lex: Lexing<'_> = Lexing::new(&input);
    let mut parse = Parser::new(lex, kernel);
    let program = parse.parse();
    assert_eq!(program.len(), 1);
    assert_eq!(
        program,
        vec![Stmt::Expr(ExprType::PrefixExpr(
            Token::Bang,
            Box::new(ExprType::Literal(Literal::Bool(true)))
        ))]
    );
}

#[test]
fn test_grouped_string() {
    let input = "(\"foo\")";
    let lex: Lexing<'_> = Lexing::new(&input);
    let mut parse = Parser::new(lex, kernel);
    let program = parse.parse();
    assert_eq!(program.len(), 1);
    assert_eq!(
        program,
        vec![Stmt::Expr(ExprType::GroupingExpr(Box::new(ExprType::Literal(Literal::String(
            String::from("foo")
        )))))]
    );
}

#[test]
fn test_grouped_nil() {
    let input = "(nil)";
    let lex: Lexing<'_> = Lexing::new(&input);
    let mut parse = Parser::new(lex, kernel);
    let program = parse.parse();
    assert_eq!(program.len(), 1);
    assert_eq!(
        program,
        vec![Stmt::Expr(ExprType::GroupingExpr(Box::new(ExprType::Literal(Literal::Nil))))]
    );
}

#[test]
fn test_arithmetic_operators_3() {
    let input = "52 + 80 - 94";
    let lex: Lexing<'_> = Lexing::new(&input);
    let mut parse = Parser::new(lex, kernel);
    let program = parse.parse();
    assert_eq!(program.len(), 1);
    assert_eq!(
        program,
        vec![Stmt::Expr(ExprType::InfixExpr(
            Box::new(ExprType::InfixExpr(Box::new(num(52.0)), Token::Plus, Box::new(num(80.0)),)),
            Token::Minus,
            Box::new(num(94.0))
        ))]
    );
}

#[test]
fn test_comparison_operator() {
    let input = "83 < 99 < 115";
    let lex: Lexing<'_> = Lexing::new(&input);
    let mut parse = Parser::new(lex, kernel);
    let program = parse.parse();
    assert_eq!(program.len(), 1);
    assert_eq!(
        program,
        vec![Stmt::Expr(ExprType::InfixExpr(
            Box::new(ExprType::InfixExpr(Box::new(num(83.0)), Token::Less, Box::new(num(99.0)),)),
            Token::Less,
            Box::new(num(115.0))
        ))]
    );
}

#[test]
fn test_output_error() {
    let input = "(foo";
    let lex: Lexing<'_> = Lexing::new(&input);
    let mut parse = Parser::new(lex, kernel);
    let program = parse.parse();
    for error in parse.errors() {
        println!("{}", error);
    }
    assert_eq!(program.len(), 0);
    assert!(parse.has_errors());
}

#[test]
fn grouping_keeps_its_parentheses() {
    let (program, errors) = parse_source("(-43 + 95) * (68 * 80) / (55 + 75)");
    assert!(errors.is_empty());
    let group = |e: ExprType| ExprType::GroupingExpr(Box::new(e));
    let infix = |l: ExprType, op: Token, r: ExprType| {
        ExprType::InfixExpr(Box::new(l), op, Box::new(r))
    };
    assert_eq!(
        program,
        vec![Stmt::Expr(infix(
            infix(
                group(infix(
                    ExprType::PrefixExpr(Token::Minus, Box::new(num(43.0))),
                    Token::Plus,
                    num(95.0)
                )),
                Token::Star,
                group(infix(num(68.0), Token::Star, num(80.0)))
            ),
            Token::Slash,
            group(infix(num(55.0), Token::Plus, num(75.0)))
        ))]
    );
}

#[test]
fn var_without_initializer_is_nil() {
    let (program, errors) = parse_source("var a;");
    assert!(errors.is_empty());
    assert_eq!(program, vec![Stmt::Var(Ident("a".to_string()), ExprType::Literal(Literal::Nil))]);
}

#[test]
fn comments_are_skipped() {
    let (program, errors) = parse_source("// first\nvar a; // second\n// third");
    assert!(errors.is_empty());
    assert_eq!(program.len(), 1);
}

#[test]
fn if_with_else_if_and_else() {
    let (program, errors) =
        parse_source("if (a) { b; } else if (c) { d; } else { e; }");
    assert!(errors.is_empty());
    let name = |s: &str| ExprType::Ident(Ident(s.to_string()));
    assert_eq!(
        program,
        vec![Stmt::Expr(ExprType::If {
            condition: Box::new(name("a")),
            elseif: vec![(Box::new(name("c")), vec![Stmt::Expr(name("d"))])],
            then_branch: vec![Stmt::Expr(name("b"))],
            else_branch: vec![Stmt::Expr(name("e"))],
        })]
    );
}

#[test]
fn for_loop_and_for_in() {
    let (program, errors) = parse_source("for (var i = 0; i < 3; i += 1) { print i; } for (var k in h) { }");
    assert!(errors.is_empty());
    let name = |s: &str| ExprType::Ident(Ident(s.to_string()));
    assert_eq!(
        program,
        vec![
            Stmt::For {
                init: Box::new(Stmt::Var(Ident("i".to_string()), num(0.0))),
                conditions: Box::new(ExprType::InfixExpr(
                    Box::new(name("i")),
                    Token::Less,
                    Box::new(num(3.0))
                )),
                step: Box::new(Stmt::Expr(ExprType::InfixExpr(
                    Box::new(name("i")),
                    Token::PlusSelf,
                    Box::new(num(1.0))
                ))),
                block: vec![Stmt::Expr(ExprType::PrintExpr(Box::new(vec![name("i")])))],
            },
            Stmt::ForIn {
                var: Box::new(Stmt::Var(Ident("k".to_string()), ExprType::Literal(Literal::Nil))),
                iter: Box::new(name("h")),
                block: vec![],
            }
        ]
    );
}

#[test]
fn class_with_methods_written_without_fun() {
    let (program, errors) = parse_source(
        "class C { var n = 1; init(x) { this.x = x; } fun get() { return this.x; } }",
    );
    assert!(errors.is_empty(), "{:?}", errors);
    let name = |s: &str| ExprType::Ident(Ident(s.to_string()));
    assert_eq!(
        program,
        vec![Stmt::ClassStmt {
            name: Ident("C".to_string()),
            properties: vec![
                Stmt::Var(Ident("n".to_string()), num(1.0)),
                Stmt::Function(
                    Ident("init".to_string()),
                    vec![Ident("x".to_string())],
                    vec![Stmt::Expr(ExprType::InfixExpr(
                        Box::new(ExprType::ThisExpr(Ident("x".to_string()))),
                        Token::Equal,
                        Box::new(name("x"))
                    ))]
                ),
                Stmt::Function(
                    Ident("get".to_string()),
                    vec![],
                    vec![Stmt::Return(ExprType::ThisExpr(Ident("x".to_string())))]
                ),
            ],
        }]
    );
}

#[test]
fn calls_indexes_and_members() {
    let (program, errors) = parse_source("f(1, x)[2]; o.p; o.m(1); new C(2); this.go(); h[\"k\"] = 3;");
    assert!(errors.is_empty(), "{:?}", errors);
    let name = |s: &str| ExprType::Ident(Ident(s.to_string()));
    assert_eq!(
        program,
        vec![
            Stmt::Expr(ExprType::IndexExpr(
                Box::new(ExprType::Call { callee: Box::new(name("f")), args: vec![num(1.0), name("x")] }),
                Box::new(ExprType::Literal(Literal::Index(2)))
            )),
            Stmt::Expr(ExprType::ClassGet {
                callee: Ident("o".to_string()),
                prop: Ident("p".to_string())
            }),
            Stmt::Expr(ExprType::ClassCall {
                callee: Ident("o".to_string()),
                method: Ident("m".to_string()),
                args: vec![num(1.0)]
            }),
            Stmt::Expr(ExprType::ClassInit { name: Ident("C".to_string()), args: vec![num(2.0)] }),
            Stmt::Expr(ExprType::ThisCall { method: Ident("go".to_string()), args: vec![] }),
            Stmt::Expr(ExprType::InfixExpr(
                Box::new(ExprType::IndexExpr(
                    Box::new(name("h")),
                    Box::new(ExprType::Literal(Literal::String("k".to_string())))
                )),
                Token::Equal,
                Box::new(num(3.0))
            )),
        ]
    );
}

#[test]
fn switch_import_assert_and_return() {
    let (program, errors) = parse_source(
        "import \"lib\"; switch x { case 1: a; case 2: b; c; default: d; } assert x, \"no\"; assert y; fun f(a, b) { return a; }",
    );
    assert!(errors.is_empty(), "{:?}", errors);
    let name = |s: &str| ExprType::Ident(Ident(s.to_string()));
    let text = |s: &str| ExprType::Literal(Literal::String(s.to_string()));
    assert_eq!(
        program,
        vec![
            Stmt::Import("lib".to_string()),
            Stmt::Switch(
                name("x"),
                vec![
                    Stmt::Case(num(1.0), vec![Stmt::Expr(name("a"))]),
                    Stmt::Case(num(2.0), vec![Stmt::Expr(name("b")), Stmt::Expr(name("c"))]),
                    Stmt::Default(vec![Stmt::Expr(name("d"))]),
                ]
            ),
            Stmt::Assert { condition: Box::new(name("x")), message: Box::new(text("no")) },
            Stmt::Assert { condition: Box::new(name("y")), message: Box::new(text("")) },
            Stmt::Function(
                Ident("f".to_string()),
                vec![Ident("a".to_string()), Ident("b".to_string())],
                vec![Stmt::Return(name("a"))]
            ),
        ]
    );
}

#[test]
fn array_and_hash_literals() {
    let (program, errors) = parse_source("var a = [1, 2]; var h = {\"a\": 1, \"b\": 2};");
    assert!(errors.is_empty(), "{:?}", errors);
    let text = |s: &str| ExprType::Literal(Literal::String(s.to_string()));
    assert_eq!(
        program,
        vec![
            Stmt::Var(
                Ident("a".to_string()),
                ExprType::Literal(Literal::Array(vec![num(1.0), num(2.0)]))
            ),
            Stmt::Var(
                Ident("h".to_string()),
                ExprType::Literal(Literal::Hash(vec![(text("a"), num(1.0)), (text("b"), num(2.0))]))
            ),
        ]
    );
}

#[test]
fn errors_stop_the_program_and_are_recorded() {
    let (program, errors) = parse_source("var a = 1;\nvar = 2;\nvar c = 3;");
    assert_eq!(program.len(), 1);
    assert_eq!(errors, vec!["[line 2] Error at '': Expect variable name.".to_string()]);
    let (program, errors) = parse_source("1 = 2;");
    assert_eq!(program.len(), 0);
    assert_eq!(errors, vec!["[line 1] Error at '': Invalid assignment target.".to_string()]);
    let (program, errors) = parse_source("print 1");
    assert_eq!(program.len(), 0);
    assert_eq!(errors, vec!["[line 1] Error at '': Expect expression.".to_string()]);
    let (_, errors) = parse_source("while (x { }");
    assert_eq!(errors, vec!["[line 1] Error at '': Expect ')' after while condition.".to_string()]);
}

#[test]
fn operators_group_by_precedence() {
    let (program, errors) = parse_source("a || b == c < d + e * f;");
    assert!(errors.is_empty());
    let name = |s: &str| ExprType::Ident(Ident(s.to_string()));
    let infix = |l: ExprType, op: Token, r: ExprType| {
        ExprType::InfixExpr(Box::new(l), op, Box::new(r))
    };
    assert_eq!(
        program,
        vec![Stmt::Expr(infix(
            name("a"),
            Token::Or,
            infix(
                name("b"),
                Token::EqualEqual,
                infix(
                    name("c"),
                    Token::Less,
                    infix(name("d"), Token::Plus, infix(name("e"), Token::Star, name("f")))
                )
            )
        ))]
    );
}

#[test]
fn same_source_same_program() {
    let source = "fun f(n) { if (n == 0) { return 1; } return n * f(n - 1); } print f(5);";
    let (first, _) = parse_source(source);
    let (second, _) = parse_source(source);
    assert_eq!(first, second);
    assert_eq!(first.len(), 2);
}

#[test]
fn a_parser_goes_on_from_where_its_lexer_stands() {
    let mut lex = Lexing::new("var a = 1; var b = 2;");
    for _ in 0..5 {
        lex.next();
    }
    let mut parse = Parser::new(lex, kernel);
    let program = parse.parse();
    assert!(!parse.has_errors());
    assert_eq!(program, vec![Stmt::Var(Ident(String::from("b")), num(2.0))]);
}

#[test]
fn a_parser_keeps_the_diagnostics_of_its_lexer() {
    let mut lex = Lexing::new("@ var a = 1;");
    assert_eq!(lex.next(), Token::Var);
    assert!(lex.has_errors());
    let mut parse = Parser::new(lex, kernel);
    let program = parse.parse();
    assert_eq!(program, vec![Stmt::Expr(ExprType::InfixExpr(
        Box::new(ExprType::Ident(Ident(String::from("a")))),
        Token::Equal,
        Box::new(num(1.0))
    ))]);
    assert_eq!(parse.errors().len(), 1);
}
