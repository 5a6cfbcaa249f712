use vstd::prelude::*;

verus! {

/// Arithmetic, comparison, assignment and logical symbols.
#[derive(Clone, Copy, Debug, PartialEq, Eq, Hash)]
pub enum Operator {
    Add,
    Sub,
    Mul,
    Pow,
    Div,
    Mod,
    Eq,
    Ne,
    Gt,
    Lt,
    Ge,
    Le,
    Assign,
    Or,
    And,
}

/// Bracket-family delimiters.
#[derive(Clone, Copy, Debug, PartialEq, Eq, Hash)]
pub enum Delimiter {
    CurlyLeft,
    CurlyRight,
    SquareLeft,
    SquareRight,
    ParLeft,
    ParRight,
}

#[derive(Clone, Copy, Debug, PartialEq, Eq, Hash)]
pub enum Separator {
    Comma,
    Colon,
    Semi,
}

#[derive(Clone, Copy, Debug, PartialEq, Eq, Hash)]
pub enum Arrow {
    /// `->`
    RArrow,
    /// `=>`
    FatArrow,
}

#[derive(Clone, Copy, Debug, PartialEq, Eq, Hash)]
pub enum Keyword {
    If,
    Else,
    Match,
    While,
    Loop,
    True,
    False,
    Let,
    Type,
    Return,
    Gen,
    Func,
}

/// What a token is. A string literal carries its decoded value, a number its value.
#[derive(Clone, Debug, PartialEq, Eq, Hash)]
pub enum TokenKind {
    Operator(Operator),
    Delimiter(Delimiter),
    Separator(Separator),
    Arrow(Arrow),
    Dot,
    Comment,
    DocComment,
    Keyword(Keyword),
    Identifier,
    TypeName,
    MacroName,
    Number(i32),
    Str(String),
}

/// A classified unit of the source. `lexeme` is the exact text consumed and `start`
/// the index, in characters, of its first character in the source.
#[derive(Clone, Debug, PartialEq, Eq, Hash)]
pub struct Token {
    pub kind: TokenKind,
    pub lexeme: String,
    pub start: usize,
}

/// Why scanning stopped. Positions are character indices into the source.
#[derive(Clone, Debug, PartialEq, Eq, Hash)]
pub enum ScanError {
    /// A character that starts no token.
    InvalidChar { ch: char, position: usize },
    /// A number literal whose value does not fit in an `i32`.
    NumberOverflow { lexeme: String, position: usize },
    /// A string literal with no closing quote; `position` is its opening quote.
    UnterminatedString { position: usize },
    /// A backslash in a string literal followed by an unsupported character.
    InvalidEscape { ch: char, position: usize },
}

} // verus!
