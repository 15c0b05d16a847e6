//! The lexer: token type, the tokenizing state machine, and the laws that
//! hold of every tokenization.
pub mod token;
pub mod parser;
pub mod laws;
pub(crate) mod text;

pub use parser::Tokenizer;

pub use token::LexError;
pub use token::QuoteKind;
pub use token::SpecToken;
pub use token::Token;
