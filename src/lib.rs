//! A stylesheet front end: a tokenizer that turns source text into positioned
//! tokens, and a parser that turns those tokens into a tree of rules, at-rules
//! and declarations.

pub mod text;
pub mod token;
pub mod lexer;
pub mod node;
pub mod parser;
pub mod laws;

pub use lexer::{tokenize, Lexer, LexerImpl};
pub use node::NodeType;
pub use parser::{parse, Parser};
pub use token::{Location, Position, Token, TokenKind};
