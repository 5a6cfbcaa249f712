use vstd::prelude::*;

use crate::chars::{alphabetic_char, numeric_char, uppercase_char};
use crate::token::{Arrow, Delimiter, Keyword, Operator, ScanError, Separator, Token, TokenKind};

verus! {

/// Characters skipped between tokens.
pub open spec fn is_space(c: char) -> bool {
    c == ' ' || c == '\t' || c == '\n' || c == '\r'
}

pub open spec fn is_digit(c: char) -> bool {
    '0' <= c <= '9'
}

/// Characters that may start an identifier.
pub open spec fn starts_word(c: char) -> bool {
    alphabetic_char(c) || c == '_'
}

/// Characters that may continue an identifier.
pub open spec fn in_word(c: char) -> bool {
    alphabetic_char(c) || numeric_char(c) || c == '_'
}

/// The first position at or after `p` that does not hold a space.
pub open spec fn skip_spaces(s: Seq<char>, p: int) -> int
    decreases s.len() - p,
{
    if 0 <= p < s.len() && is_space(s[p]) {
        skip_spaces(s, p + 1)
    } else {
        p
    }
}

/// The first position at or after `p` that does not hold an ASCII digit.
pub open spec fn digits_end(s: Seq<char>, p: int) -> int
    decreases s.len() - p,
{
    if 0 <= p < s.len() && is_digit(s[p]) {
        digits_end(s, p + 1)
    } else {
        p
    }
}

/// The first position at or after `p` that cannot continue an identifier.
pub open spec fn word_end(s: Seq<char>, p: int) -> int
    decreases s.len() - p,
{
    if 0 <= p < s.len() && in_word(s[p]) {
        word_end(s, p + 1)
    } else {
        p
    }
}

/// The position of the first newline at or after `p`, or the end of `s`.
pub open spec fn line_end(s: Seq<char>, p: int) -> int
    decreases s.len() - p,
{
    if 0 <= p < s.len() && s[p] != '\n' {
        line_end(s, p + 1)
    } else {
        p
    }
}

/// The value of a run of ASCII digits, read in base ten.
pub open spec fn digits_value(d: Seq<char>) -> int
    decreases d.len(),
{
    if d.len() == 0 {
        0
    } else {
        digits_value(d.drop_last()) * 10 + (d.last() as int - '0' as int)
    }
}

/// One or more ASCII digits.
pub open spec fn all_digits(d: Seq<char>) -> bool {
    d.len() > 0 && forall|i: int| 0 <= i < d.len() ==> is_digit(#[trigger] d[i])
}

/// An optional sign followed by one or more ASCII digits.
pub open spec fn is_number_literal(t: Seq<char>) -> bool {
    if t.len() > 0 && (t[0] == '+' || t[0] == '-') {
        all_digits(t.drop_first())
    } else {
        all_digits(t)
    }
}

/// The integer that a number literal denotes.
pub open spec fn literal_value(t: Seq<char>) -> int {
    if t.len() > 0 && t[0] == '-' {
        -digits_value(t.drop_first())
    } else if t.len() > 0 && t[0] == '+' {
        digits_value(t.drop_first())
    } else {
        digits_value(t)
    }
}

pub open spec fn fits_i32(v: int) -> bool {
    i32::MIN <= v <= i32::MAX
}

/// The position of the quote that closes a string literal whose content starts at
/// `i`; the end of `s` when there is none. A backslash takes the next character
/// with it, so an escaped quote does not close the literal.
pub open spec fn string_close(s: Seq<char>, i: int) -> int
    decreases s.len() - i,
{
    if i < 0 || i >= s.len() {
        s.len() as int
    } else if s[i] == '"' {
        i
    } else if s[i] == '\\' {
        if i + 1 >= s.len() {
            s.len() as int
        } else {
            string_close(s, i + 2)
        }
    } else {
        string_close(s, i + 1)
    }
}

/// The character that an escape `\c` stands for.
pub open spec fn unescape(c: char) -> Option<char> {
    if c == '\\' {
        Some('\\')
    } else if c == 'n' {
        Some('\n')
    } else if c == 't' {
        Some('\t')
    } else if c == '0' {
        Some('\0')
    } else if c == '"' {
        Some('"')
    } else if c == '\'' {
        Some('\'')
    } else {
        None
    }
}

/// The decoded content of `s[i..close]`, or the position of the first character
/// after a backslash that is no supported escape.
pub open spec fn decode(s: Seq<char>, i: int, close: int) -> Result<Seq<char>, int>
    decreases close - i,
{
    if i >= close {
        Ok(Seq::empty())
    } else if s[i] == '\\' && i + 1 < close {
        match unescape(s[i + 1]) {
            Some(c) => match decode(s, i + 2, close) {
                Ok(rest) => Ok(seq![c] + rest),
                Err(e) => Err(e),
            },
            None => Err(i + 1),
        }
    } else {
        match decode(s, i + 1, close) {
            Ok(rest) => Ok(seq![s[i]] + rest),
            Err(e) => Err(e),
        }
    }
}

/// The keyword spelled by `w`, if any.
pub open spec fn keyword_of(w: Seq<char>) -> Option<Keyword> {
    if w == "if"@ {
        Some(Keyword::If)
    } else if w == "else"@ {
        Some(Keyword::Else)
    } else if w == "match"@ {
        Some(Keyword::Match)
    } else if w == "while"@ {
        Some(Keyword::While)
    } else if w == "loop"@ {
        Some(Keyword::Loop)
    } else if w == "true"@ {
        Some(Keyword::True)
    } else if w == "false"@ {
        Some(Keyword::False)
    } else if w == "let"@ {
        Some(Keyword::Let)
    } else if w == "type"@ {
        Some(Keyword::Type)
    } else if w == "return"@ {
        Some(Keyword::Return)
    } else if w == "gen"@ {
        Some(Keyword::Gen)
    } else if w == "func"@ {
        Some(Keyword::Func)
    } else {
        None
    }
}

/// The symbol token that starts at `p`, longest match first: its kind and width.
pub open spec fn symbol_at(s: Seq<char>, p: int) -> Option<(TokenKind, int)> {
    let c = s[p];
    let n = if p + 1 < s.len() {
        s[p + 1]
    } else {
        '\0'
    };
    let two = p + 1 < s.len();
    if two && c == '-' && n == '>' {
        Some((TokenKind::Arrow(Arrow::RArrow), 2))
    } else if two && c == '=' && n == '>' {
        Some((TokenKind::Arrow(Arrow::FatArrow), 2))
    } else if two && c == '*' && n == '*' {
        Some((TokenKind::Operator(Operator::Pow), 2))
    } else if two && c == ':' && n == '=' {
        Some((TokenKind::Operator(Operator::Assign), 2))
    } else if two && c == '=' && n == '=' {
        Some((TokenKind::Operator(Operator::Eq), 2))
    } else if two && c == '!' && n == '=' {
        Some((TokenKind::Operator(Operator::Ne), 2))
    } else if two && c == '>' && n == '=' {
        Some((TokenKind::Operator(Operator::Ge), 2))
    } else if two && c == '<' && n == '=' {
        Some((TokenKind::Operator(Operator::Le), 2))
    } else if c == '+' {
        Some((TokenKind::Operator(Operator::Add), 1))
    } else if c == '-' {
        Some((TokenKind::Operator(Operator::Sub), 1))
    } else if c == '*' {
        Some((TokenKind::Operator(Operator::Mul), 1))
    } else if c == '/' {
        Some((TokenKind::Operator(Operator::Div), 1))
    } else if c == '%' {
        Some((TokenKind::Operator(Operator::Mod), 1))
    } else if c == '>' {
        Some((TokenKind::Operator(Operator::Gt), 1))
    } else if c == '<' {
        Some((TokenKind::Operator(Operator::Lt), 1))
    } else if c == '|' {
        Some((TokenKind::Operator(Operator::Or), 1))
    } else if c == '&' {
        Some((TokenKind::Operator(Operator::And), 1))
    } else if c == '{' {
        Some((TokenKind::Delimiter(Delimiter::CurlyLeft), 1))
    } else if c == '}' {
        Some((TokenKind::Delimiter(Delimiter::CurlyRight), 1))
    } else if c == '[' {
        Some((TokenKind::Delimiter(Delimiter::SquareLeft), 1))
    } else if c == ']' {
        Some((TokenKind::Delimiter(Delimiter::SquareRight), 1))
    } else if c == '(' {
        Some((TokenKind::Delimiter(Delimiter::ParLeft), 1))
    } else if c == ')' {
        Some((TokenKind::Delimiter(Delimiter::ParRight), 1))
    } else if c == ',' {
        Some((TokenKind::Separator(Separator::Comma), 1))
    } else if c == ':' {
        Some((TokenKind::Separator(Separator::Colon), 1))
    } else if c == ';' {
        Some((TokenKind::Separator(Separator::Semi), 1))
    } else if c == '.' {
        Some((TokenKind::Dot, 1))
    } else {
        None
    }
}

/// What scanning from a token start yields, before it is turned into values.
pub enum Outcome {
    /// A token of this kind, never a string literal, ending at `end`.
    Token { kind: TokenKind, end: int },
    /// A string literal with this decoded content, ending at `end`.
    Str { value: Seq<char>, end: int },
    InvalidChar,
    Overflow { end: int },
    Unterminated,
    InvalidEscape { position: int, end: int },
}

/// Whether a number literal starts at `p`: a digit, or a sign right before a digit.
pub open spec fn starts_number(s: Seq<char>, p: int) -> bool {
    is_digit(s[p]) || ((s[p] == '+' || s[p] == '-') && p + 1 < s.len() && is_digit(s[p + 1]))
}

/// Whether a comment starts at `p`.
pub open spec fn starts_comment(s: Seq<char>, p: int) -> bool {
    s[p] == '/' && p + 1 < s.len() && s[p + 1] == '/'
}

/// The end of the identifier-like token at `p`: a lowercase-led word takes one `!`
/// that follows it.
pub open spec fn name_end(s: Seq<char>, p: int) -> int {
    let e = word_end(s, p + 1);
    if !uppercase_char(s[p]) && e < s.len() && s[e] == '!' {
        e + 1
    } else {
        e
    }
}

/// The kind of the identifier-like token `s[p..e]`.
pub open spec fn name_kind(s: Seq<char>, p: int, e: int) -> TokenKind {
    match keyword_of(s.subrange(p, e)) {
        Some(k) => TokenKind::Keyword(k),
        None => if uppercase_char(s[p]) {
            TokenKind::TypeName
        } else if s[e - 1] == '!' {
            TokenKind::MacroName
        } else {
            TokenKind::Identifier
        },
    }
}

/// What scanning yields at `p`, which holds no space.
pub open spec fn lex(s: Seq<char>, p: int) -> Outcome {
    if starts_number(s, p) {
        let e = digits_end(s, p + 1);
        let v = literal_value(s.subrange(p, e));
        if fits_i32(v) {
            Outcome::Token { kind: TokenKind::Number(v as i32), end: e }
        } else {
            Outcome::Overflow { end: e }
        }
    } else if starts_comment(s, p) {
        let kind = if p + 2 < s.len() && s[p + 2] == '/' {
            TokenKind::DocComment
        } else {
            TokenKind::Comment
        };
        Outcome::Token { kind, end: line_end(s, p) }
    } else if symbol_at(s, p) is Some {
        let (kind, w) = symbol_at(s, p)->0;
        Outcome::Token { kind, end: p + w }
    } else if s[p] == '"' {
        let close = string_close(s, p + 1);
        if close >= s.len() {
            Outcome::Unterminated
        } else {
            match decode(s, p + 1, close) {
                Ok(v) => Outcome::Str { value: v, end: close + 1 },
                Err(q) => Outcome::InvalidEscape { position: q, end: close + 1 },
            }
        }
    } else if starts_word(s[p]) {
        let e = name_end(s, p);
        Outcome::Token { kind: name_kind(s, p, e), end: e }
    } else {
        Outcome::InvalidChar
    }
}

} // verus!

verus! {

/// Whether an outcome stops the scan.
pub open spec fn is_failure(o: Outcome) -> bool {
    !(o is Token || o is Str)
}

/// Where the cursor stands after scanning `o` from `p`.
pub open spec fn outcome_end(s: Seq<char>, p: int, o: Outcome) -> int {
    match o {
        Outcome::Token { end, .. } => end,
        Outcome::Str { end, .. } => end,
        Outcome::InvalidChar => p + 1,
        Outcome::Overflow { end } => end,
        Outcome::Unterminated => s.len() as int,
        Outcome::InvalidEscape { end, .. } => end,
    }
}

/// Whether `r` is the value that outcome `o`, scanned from `p`, stands for.
pub open spec fn yields(s: Seq<char>, p: int, r: Result<Token, ScanError>, o: Outcome) -> bool {
    match o {
        Outcome::Token { kind, end } => {
            &&& r matches Ok(t)
            &&& t.kind == kind
            &&& t.lexeme@ == s.subrange(p, end)
            &&& t.start == p
        },
        Outcome::Str { value, end } => {
            &&& r matches Ok(t)
            &&& t.kind matches TokenKind::Str(v)
            &&& v@ == value
            &&& t.lexeme@ == s.subrange(p, end)
            &&& t.start == p
        },
        Outcome::InvalidChar => r == Err::<Token, ScanError>(
            ScanError::InvalidChar { ch: s[p], position: p as usize },
        ),
        Outcome::Overflow { end } => {
            &&& r matches Err(ScanError::NumberOverflow { lexeme, position })
            &&& lexeme@ == s.subrange(p, end)
            &&& position == p
        },
        Outcome::Unterminated => r == Err::<Token, ScanError>(
            ScanError::UnterminatedString { position: p as usize },
        ),
        Outcome::InvalidEscape { position, .. } => r == Err::<Token, ScanError>(
            ScanError::InvalidEscape { ch: s[position], position: position as usize },
        ),
    }
}

} // verus!
