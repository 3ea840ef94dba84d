use vstd::prelude::*;

pub mod assoc;
pub mod ast;
pub mod error;
pub mod grammar;
pub mod interpreter;
pub mod laws;
pub mod lexer;
pub mod parser;

pub use crate::ast::Node;
pub use crate::error::AsaErrorKind;
pub use crate::interpreter::{Interpreter, Value};
pub use crate::lexer::{lex, Token, TokenKind};

verus! {

} // verus!
