//! An interpreter for a small scripting language of the Lox family: lexer,
//! parser, import loader, a tree-walking evaluator, and a bytecode compiler
//! with its stack machine.
//!
//! Each part is stated twice: as a function on mathematical values (`lexer::scan`,
//! `grammar::Grammar`, `semantics`, `lowering`, `machine`) and as the code that
//! computes it, proved to give what the function says.

pub mod agreement;
pub mod ast;
pub mod builtins;
pub mod callstack;
pub mod compiler;
pub mod container;
pub mod display;
pub mod envs;
pub mod evaluator;
pub mod frame;
pub mod grammar;
pub mod heap;
pub mod imports;
pub mod lexer;
pub mod lowering;
pub mod machine;
pub mod number;
pub mod objects;
pub mod opcode;
pub mod parser;
pub mod printer;
pub mod semantics;
pub mod symbol;
pub mod text;
pub mod token;
pub mod vm;
