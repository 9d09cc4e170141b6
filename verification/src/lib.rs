//! A lexer for the Lox language together with the bytecode chunk and the
//! decision core of the stack machine that runs it.

pub mod text;
pub mod token;
pub mod lexical;
pub mod scanner;
pub mod compiler;
pub mod chunk;
pub mod vm;
