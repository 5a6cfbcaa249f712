//! A lexical scanner for a small expression and statement language. Text goes in;
//! typed tokens (numbers, strings, operators, delimiters, separators, arrows,
//! keywords, names, comments) come out one at a time, up to the end of the text
//! or the first malformed position.
//!
//! `model` states what a scan yields as spec functions over the text's
//! characters; `scanner` holds the executable scan, proved against it; `laws`
//! proves properties of the model; `words` holds a simpler greedy word splitter.
pub mod chars;
pub mod laws;
pub mod model;
pub mod scanner;
pub mod token;
pub mod words;

pub use scanner::{split_tokens, SplitTokens};
pub use token::{Arrow, Delimiter, Keyword, Operator, ScanError, Separator, Token, TokenKind};
pub use words::{is_valid_token, tokenize};
