//! Constant: a small stack-based scripting language.
//!
//! Source text is cut into tokens by the [`Lexer`], the tokens are turned into
//! a statement tree by the [`Parser`], and the tree is run by the
//! [`Interpreter`] against an operand stack, a table of bound names and a
//! table of procedures.
//!
//! Everything here is integer and text logic. A number is carried as the bit
//! pattern of an IEEE-754 binary32 value; reading a number from its decimal
//! text, the five arithmetic operators on two numbers and writing a number
//! out are left to the host, which the interpreter asks through its
//! [`Action`]s.

pub mod error;
pub mod interpreter;
pub mod lexer;
pub mod number;
pub mod parser;
pub mod text;

pub use error::ConstantError;
pub use interpreter::{Action, Interpreter};
pub use lexer::{Arithmetic, Lexer, Literal, Outcome, Token, TokenType};
pub use parser::{DoubleOpType, Parser, SingleOpType, Statement, Value};
