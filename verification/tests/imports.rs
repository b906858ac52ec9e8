use lox_interpreter::ast::{Program, Stmt};
use lox_interpreter::imports::{parse_import, ImportError, Imports};
use lox_interpreter::lexer::Lexing;
use lox_interpreter::number::{Number, NumberOp, NumberReply, NumberRequest};
use lox_interpreter::parser::Parser;

fn kernel(request: NumberRequest) -> NumberReply {
    match request {
        NumberRequest::Parse(text) => NumberReply {
            number: Number { bits: text.parse::<f64>().unwrap_or(f64::NAN).to_bits() },
            text: String::new(),
        },
        NumberRequest::Format(n) => {
            NumberReply { number: n, text: format!("{}", f64::from_bits(n.bits)) }
        }
        NumberRequest::Binary(op, a, b) => {
            let (x, y) = (f64::from_bits(a.bits), f64::from_bits(b.bits));
            let r = match op {
                NumberOp::Add => x + y,
                NumberOp::Subtract => x - y,
                NumberOp::Multiply => x * y,
                NumberOp::Divide => x / y,
                NumberOp::Remainder => x % y,
            };
            NumberReply { number: Number { bits: r.to_bits() }, text: String::new() }
        }
    }
}

fn parsed(source: &str) -> Program {
    let mut parser = Parser::new(Lexing::new(source), kernel);
    let program = parser.parse();
    assert!(!parser.has_errors(), "{:?}", parser.errors());
    program
}

fn printed(program: &Program) -> Vec<String> {
    program.iter().map(|s| s.to_text(&kernel)).collect()
}

/// Runs a load to its end, reading each file from `files`.
fn load_with(main: &str, files: &[(&str, &str)]) -> (Vec<String>, Vec<String>) {
    let mut imports = Imports::new(parsed(main), "dir".to_string());
    let mut asked = Vec::new();
    while let Some(file) = imports.next() {
        let source = files.iter().find(|(name, _)| *name == file).map(|(_, s)| *s);
        asked.push(file.clone());
        let source = source.unwrap_or_else(|| panic!("no file {}", file));
        assert_eq!(imports.supply(&file, source, kernel), Ok(()));
    }
    (asked, printed(&imports.load()))
}

#[test]
fn a_program_without_imports_needs_no_file() {
    let (asked, program) = load_with("var a = 1; print a;", &[]);
    assert!(asked.is_empty());
    assert_eq!(program, vec!["var a = 1.0", "(print a)"]);
}

#[test]
fn an_imported_module_comes_before_the_program() {
    let (asked, program) = load_with("import \"lib\"; print x;", &[("lib.lox", "var x = 1;")]);
    assert_eq!(asked, vec!["lib.lox"]);
    assert_eq!(program, vec!["var x = 1.0", "import \"lib\"", "(print x)"]);
}

#[test]
fn imports_of_imports_come_first() {
    let (asked, program) = load_with(
        "import \"a\"; import \"b\"; print 1;",
        &[("a.lox", "import \"b\"; var a = 1;"), ("b.lox", "var b = 2;")],
    );
    assert_eq!(asked, vec!["a.lox", "b.lox"]);
    assert_eq!(
        program,
        vec![
            "var b = 2.0",
            "import \"b\"",
            "var a = 1.0",
            "import \"a\"",
            "import \"b\"",
            "(print 1.0)"
        ]
    );
}

#[test]
fn a_module_is_loaded_once() {
    let (asked, program) = load_with(
        "import \"a\"; import \"a\"; import \"b\";",
        &[("a.lox", "var a = 1;"), ("b.lox", "import \"a\"; var b = 2;")],
    );
    assert_eq!(asked, vec!["a.lox", "b.lox"]);
    assert_eq!(
        program,
        vec![
            "var a = 1.0",
            "import \"a\"",
            "var b = 2.0",
            "import \"a\"",
            "import \"a\"",
            "import \"b\""
        ]
    );
}

#[test]
fn modules_that_import_each_other_end() {
    let (asked, program) = load_with(
        "import \"a\";",
        &[("a.lox", "import \"b\"; var a = 1;"), ("b.lox", "import \"a\"; var b = 2;")],
    );
    assert_eq!(asked, vec!["a.lox", "b.lox"]);
    assert_eq!(
        program,
        vec!["import \"a\"", "var b = 2.0", "import \"b\"", "var a = 1.0", "import \"a\""]
    );
}

#[test]
fn an_empty_file_is_refused() {
    let mut imports = Imports::new(parsed("import \"lib\";"), "dir".to_string());
    assert_eq!(imports.next(), Some("lib.lox".to_string()));
    assert_eq!(imports.supply("lib.lox", "", kernel), Err(ImportError::Empty));
}

#[test]
fn a_file_with_errors_is_refused() {
    let mut imports = Imports::new(parsed("import \"lib\";"), "dir".to_string());
    assert_eq!(imports.next(), Some("lib.lox".to_string()));
    assert_eq!(imports.supply("lib.lox", "var = ;", kernel), Err(ImportError::Syntax));
    assert_eq!(imports.supply("lib.lox", "var s = \"open", kernel), Err(ImportError::Syntax));
    // The load still waits for the file.
    assert_eq!(imports.supply("lib.lox", "var x = 1;", kernel), Ok(()));
    assert_eq!(imports.next(), None);
}

#[test]
fn a_file_that_was_not_asked_for_is_refused() {
    let mut imports = Imports::new(parsed("import \"lib\";"), "dir".to_string());
    assert_eq!(imports.supply("lib.lox", "var x = 1;", kernel), Err(ImportError::Unexpected));
    assert_eq!(imports.next(), Some("lib.lox".to_string()));
    assert_eq!(imports.supply("other.lox", "var x = 1;", kernel), Err(ImportError::Unexpected));
}

#[test]
fn the_load_knows_its_directory_and_its_modules() {
    let mut imports = Imports::new(parsed("print 1;"), "some/dir".to_string());
    assert_eq!(imports.current_dir(), "some/dir");
    assert!(imports.get("lib.lox").is_none());
    imports.insert("lib.lox".to_string(), parsed("var x = 1;"));
    assert_eq!(imports.get("lib.lox").map(printed), Some(vec!["var x = 1.0".to_string()]));
    assert!(imports.get("other.lox").is_none());
    assert_eq!(printed(&imports.load()), vec!["var x = 1.0", "(print 1.0)"]);
}

#[test]
fn parse_import_gives_the_program_of_a_file() {
    assert_eq!(parse_import("var x = 1;", kernel).map(|p| printed(&p)), Ok(vec!["var x = 1.0".to_string()]));
    assert_eq!(parse_import("", kernel).map(|p| p.len()), Err(ImportError::Empty));
    assert_eq!(parse_import("(", kernel).map(|p| p.len()), Err(ImportError::Syntax));
}

#[test]
fn the_parser_names_the_imports_of_a_program() {
    let source = "import \"a\"; var x = 1; import \"b\"; { import \"inner\"; }";
    let mut parser = Parser::new(Lexing::new(source), kernel);
    let program = parser.parse();
    assert_eq!(parser.get_imports(&program), Some(vec!["a".to_string(), "b".to_string()]));
    assert_eq!(parser.get_imports(&vec![Stmt::Blank]), None);
    assert_eq!(parser.get_imports(&Vec::new()), None);
}
