//! A token-level rewriting engine: a lexer for free-form text and an ordered
//! set of pattern/replacement rules applied to the resulting token stream.

pub mod bindings;
pub mod pattern;
pub mod rewriter;
pub mod rule;
pub mod text;
pub mod token;
pub mod tokenizer;

pub use bindings::Bindings;
pub use pattern::{Pattern, QuoteStylePattern};
pub use rewriter::Rewriter;
pub use rule::Rule;
pub use token::{QuoteStyle, Token};
pub use tokenizer::{tokenize, LexError, Tokenizer};
