use vstd::prelude::*;

use crate::chars::{
    chars_of, is_alphabetic, is_alphanumeric, is_uppercase, push_char, span_is, string_of,
};
use crate::model::{
    decode, digits_end, digits_value, is_digit, is_failure, is_space, keyword_of, lex, line_end,
    literal_value, outcome_end, skip_spaces, starts_comment, starts_number, starts_word,
    string_close, symbol_at, unescape, word_end, yields,
};
use crate::token::{Arrow, Delimiter, Keyword, Operator, ScanError, Separator, Token, TokenKind};

verus! {

fn is_digit_char(c: char) -> (r: bool)
    ensures
        r == is_digit(c),
{
    '0' <= c && c <= '9'
}

/// Scans a number literal: an optional sign and the digits after it.
fn scan_number(s: &Vec<char>, p: usize) -> (r: (Result<Token, ScanError>, usize))
    requires
        p < s@.len(),
        starts_number(s@, p as int),
    ensures
        yields(s@, p as int, r.0, lex(s@, p as int)),
        r.1 == outcome_end(s@, p as int, lex(s@, p as int)),
{
    let len = s.len();
    let mut e: usize = p + 1;
    while e < len && is_digit_char(s[e])
        invariant
            p + 1 <= e <= len == s@.len(),
            digits_end(s@, e as int) == digits_end(s@, p + 1),
            forall|j: int| p + 1 <= j < e ==> is_digit(#[trigger] s@[j]),
        decreases len - e,
    {
        e = e + 1;
    }
    let negative = s[p] == '-';
    let first: usize = if is_digit_char(s[p]) { p } else { p + 1 };
    let ghost t = s@.subrange(p as int, e as int);
    let ghost d = s@.subrange(first as int, e as int);
    proof {
        if first == p + 1 {
            assert(d =~= t.drop_first());
        } else {
            assert(d =~= t);
        }
        assert(literal_value(t) == if negative { -digits_value(d) } else { digits_value(d) });
    }
    // Past this bound no value fits, whatever the sign.
    let bound: u64 = 2147483648;
    let mut acc: u64 = 0;
    let mut over = false;
    let mut i: usize = first;
    while i < e
        invariant
            p <= first <= i <= e <= s@.len(),
            d == s@.subrange(first as int, e as int),
            forall|j: int| first <= j < e ==> is_digit(#[trigger] s@[j]),
            acc <= bound,
            bound == 2147483648,
            !over ==> acc == digits_value(s@.subrange(first as int, i as int)),
            over ==> digits_value(s@.subrange(first as int, i as int)) > bound,
        decreases e - i,
    {
        let c = s[i];
        let ghost pre = s@.subrange(first as int, i as int);
        proof {
            assert(s@.subrange(first as int, i + 1).drop_last() =~= pre);
        }
        let digit = (c as u32 - '0' as u32) as u64;
        if !over {
            let next = acc * 10 + digit;
            if next > bound {
                over = true;
            } else {
                acc = next;
            }
        }
        i = i + 1;
    }
    proof {
        assert(s@.subrange(first as int, i as int) == d);
    }
    if over || (!negative && acc == bound) {
        let lexeme = string_of(s, p, e);
        (Err(ScanError::NumberOverflow { lexeme, position: p }), e)
    } else {
        let v: i32 = if negative {
            (0 - (acc as i64)) as i32
        } else {
            acc as i32
        };
        let lexeme = string_of(s, p, e);
        (Ok(Token { kind: TokenKind::Number(v), lexeme, start: p }), e)
    }
}

/// Scans a comment through the end of its line; `///` makes a doc comment.
fn scan_comment(s: &Vec<char>, p: usize) -> (r: (Result<Token, ScanError>, usize))
    requires
        p < s@.len(),
        !starts_number(s@, p as int),
        starts_comment(s@, p as int),
    ensures
        yields(s@, p as int, r.0, lex(s@, p as int)),
        r.1 == outcome_end(s@, p as int, lex(s@, p as int)),
{
    let len = s.len();
    let mut e: usize = p;
    while e < len && s[e] != '\n'
        invariant
            p <= e <= len == s@.len(),
            line_end(s@, e as int) == line_end(s@, p as int),
        decreases len - e,
    {
        e = e + 1;
    }
    let kind = if p + 2 < len && s[p + 2] == '/' {
        TokenKind::DocComment
    } else {
        TokenKind::Comment
    };
    let lexeme = string_of(s, p, e);
    (Ok(Token { kind, lexeme, start: p }), e)
}

/// The symbol that starts at `p`, longest match first, and its width.
fn symbol(s: &Vec<char>, p: usize) -> (r: Option<(TokenKind, usize)>)
    requires
        p < s@.len(),
    ensures
        match symbol_at(s@, p as int) {
            Some((k, w)) => r == Some((k, w as usize)),
            None => r is None,
        },
{
    let c = s[p];
    let two = s.len() - p > 1;
    let n = if two {
        s[p + 1]
    } else {
        '\0'
    };
    if two && c == '-' && n == '>' {
        Some((TokenKind::Arrow(Arrow::RArrow), 2))
    } else if two && c == '=' && n == '>' {
        Some((TokenKind::Arrow(Arrow::FatArrow), 2))
    } else if two && c == '*' && n == '*' {
        Some((TokenKind::Operator(Operator::Pow), 2))
    } else if two && c == ':' && n == '=' {
        Some((TokenKind::Operator(Operator::Assign), 2))
    } else if two && c == '=' && n == '=' {
        Some((TokenKind::Operator(Operator::Eq), 2))
    } else if two && c == '!' && n == '=' {
        Some((TokenKind::Operator(Operator::Ne), 2))
    } else if two && c == '>' && n == '=' {
        Some((TokenKind::Operator(Operator::Ge), 2))
    } else if two && c == '<' && n == '=' {
        Some((TokenKind::Operator(Operator::Le), 2))
    } else if c == '+' {
        Some((TokenKind::Operator(Operator::Add), 1))
    } else if c == '-' {
        Some((TokenKind::Operator(Operator::Sub), 1))
    } else if c == '*' {
        Some((TokenKind::Operator(Operator::Mul), 1))
    } else if c == '/' {
        Some((TokenKind::Operator(Operator::Div), 1))
    } else if c == '%' {
        Some((TokenKind::Operator(Operator::Mod), 1))
    } else if c == '>' {
        Some((TokenKind::Operator(Operator::Gt), 1))
    } else if c == '<' {
        Some((TokenKind::Operator(Operator::Lt), 1))
    } else if c == '|' {
        Some((TokenKind::Operator(Operator::Or), 1))
    } else if c == '&' {
        Some((TokenKind::Operator(Operator::And), 1))
    } else if c == '{' {
        Some((TokenKind::Delimiter(Delimiter::CurlyLeft), 1))
    } else if c == '}' {
        Some((TokenKind::Delimiter(Delimiter::CurlyRight), 1))
    } else if c == '[' {
        Some((TokenKind::Delimiter(Delimiter::SquareLeft), 1))
    } else if c == ']' {
        Some((TokenKind::Delimiter(Delimiter::SquareRight), 1))
    } else if c == '(' {
        Some((TokenKind::Delimiter(Delimiter::ParLeft), 1))
    } else if c == ')' {
        Some((TokenKind::Delimiter(Delimiter::ParRight), 1))
    } else if c == ',' {
        Some((TokenKind::Separator(Separator::Comma), 1))
    } else if c == ':' {
        Some((TokenKind::Separator(Separator::Colon), 1))
    } else if c == ';' {
        Some((TokenKind::Separator(Separator::Semi), 1))
    } else if c == '.' {
        Some((TokenKind::Dot, 1))
    } else {
        None
    }
}

/// The keyword that `s[p..e]` spells, if any.
fn keyword_at(s: &Vec<char>, p: usize, e: usize) -> (r: Option<Keyword>)
    requires
        p <= e <= s@.len(),
    ensures
        r == keyword_of(s@.subrange(p as int, e as int)),
{
    if span_is(s, p, e, "if") {
        Some(Keyword::If)
    } else if span_is(s, p, e, "else") {
        Some(Keyword::Else)
    } else if span_is(s, p, e, "match") {
        Some(Keyword::Match)
    } else if span_is(s, p, e, "while") {
        Some(Keyword::While)
    } else if span_is(s, p, e, "loop") {
        Some(Keyword::Loop)
    } else if span_is(s, p, e, "true") {
        Some(Keyword::True)
    } else if span_is(s, p, e, "false") {
        Some(Keyword::False)
    } else if span_is(s, p, e, "let") {
        Some(Keyword::Let)
    } else if span_is(s, p, e, "type") {
        Some(Keyword::Type)
    } else if span_is(s, p, e, "return") {
        Some(Keyword::Return)
    } else if span_is(s, p, e, "gen") {
        Some(Keyword::Gen)
    } else if span_is(s, p, e, "func") {
        Some(Keyword::Func)
    } else {
        None
    }
}

/// Scans a keyword, an identifier, a type name or a macro name.
fn scan_name(s: &Vec<char>, p: usize) -> (r: (Result<Token, ScanError>, usize))
    requires
        p < s@.len(),
        !starts_number(s@, p as int),
        !starts_comment(s@, p as int),
        symbol_at(s@, p as int) is None,
        s@[p as int] != '"',
        starts_word(s@[p as int]),
    ensures
        yields(s@, p as int, r.0, lex(s@, p as int)),
        r.1 == outcome_end(s@, p as int, lex(s@, p as int)),
{
    let len = s.len();
    let mut e: usize = p + 1;
    while e < len && (is_alphanumeric(s[e]) || s[e] == '_')
        invariant
            p + 1 <= e <= len == s@.len(),
            word_end(s@, e as int) == word_end(s@, p + 1),
        decreases len - e,
    {
        e = e + 1;
    }
    let upper = is_uppercase(s[p]);
    if !upper && e < len && s[e] == '!' {
        e = e + 1;
    }
    let kind = match keyword_at(s, p, e) {
        Some(k) => TokenKind::Keyword(k),
        None => if upper {
            TokenKind::TypeName
        } else if s[e - 1] == '!' {
            TokenKind::MacroName
        } else {
            TokenKind::Identifier
        },
    };
    let lexeme = string_of(s, p, e);
    (Ok(Token { kind, lexeme, start: p }), e)
}

/// The character that the escape `\\c` stands for, if it is a supported one.
fn unescape_char(c: char) -> (r: Option<char>)
    ensures
        r == unescape(c),
{
    if c == '\\' {
        Some('\\')
    } else if c == 'n' {
        Some('\n')
    } else if c == 't' {
        Some('\t')
    } else if c == '0' {
        Some('\0')
    } else if c == '"' {
        Some('"')
    } else if c == '\'' {
        Some('\'')
    } else {
        None
    }
}

/// Prefixes `a` to a decoded value, leaving an error as it is.
spec fn prefixed(a: Seq<char>, r: Result<Seq<char>, int>) -> Result<Seq<char>, int> {
    match r {
        Ok(x) => Ok(a + x),
        Err(e) => Err(e),
    }
}

/// Scans a string literal, decoding its escapes.
fn scan_string(s: &Vec<char>, p: usize) -> (r: (Result<Token, ScanError>, usize))
    requires
        p < s@.len(),
        !starts_number(s@, p as int),
        !starts_comment(s@, p as int),
        symbol_at(s@, p as int) is None,
        s@[p as int] == '"',
    ensures
        yields(s@, p as int, r.0, lex(s@, p as int)),
        r.1 == outcome_end(s@, p as int, lex(s@, p as int)),
{
    let len = s.len();
    let mut close: usize = p + 1;
    while close < len && s[close] != '"'
        invariant
            p + 1 <= close <= len == s@.len(),
            string_close(s@, close as int) == string_close(s@, p + 1),
        decreases len - close,
    {
        if s[close] == '\\' {
            if len - close < 2 {
                close = len;
            } else {
                close = close + 2;
            }
        } else {
            close = close + 1;
        }
    }
    if close >= len {
        return (Err(ScanError::UnterminatedString { position: p }), len);
    }
    let ghost whole = decode(s@, p + 1, close as int);
    let mut value = String::new();
    let mut i: usize = p + 1;
    while i < close
        invariant
            p + 1 <= i <= close < len == s@.len(),
            whole == decode(s@, p + 1, close as int),
            string_close(s@, p + 1) == close,
            s@[p as int] == '"',
            !starts_number(s@, p as int),
            !starts_comment(s@, p as int),
            symbol_at(s@, p as int) is None,
            prefixed(value@, decode(s@, i as int, close as int)) == whole,
        decreases close - i,
    {
        let c = s[i];
        if c == '\\' && close - i > 1 {
            match unescape_char(s[i + 1]) {
                Some(d) => {
                    proof {
                        let rest = decode(s@, i + 2, close as int);
                        if rest is Ok {
                            assert(value@.push(d) + rest->Ok_0 =~= value@ + (seq![d] + rest->Ok_0));
                        }
                    }
                    push_char(&mut value, d);
                    i = i + 2;
                },
                None => {
                    let position = i + 1;
                    return (
                        Err(ScanError::InvalidEscape { ch: s[position], position }),
                        close + 1,
                    );
                },
            }
        } else {
            proof {
                let rest = decode(s@, i + 1, close as int);
                if rest is Ok {
                    assert(value@.push(c) + rest->Ok_0 =~= value@ + (seq![c] + rest->Ok_0));
                }
            }
            push_char(&mut value, c);
            i = i + 1;
        }
    }
    proof {
        assert(value@ + Seq::<char>::empty() =~= value@);
    }
    let lexeme = string_of(s, p, close + 1);
    (Ok(Token { kind: TokenKind::Str(value), lexeme, start: p }), close + 1)
}

/// Scans the token that starts at `p`, which holds no space.
fn scan_at(s: &Vec<char>, p: usize) -> (r: (Result<Token, ScanError>, usize))
    requires
        p < s@.len(),
    ensures
        yields(s@, p as int, r.0, lex(s@, p as int)),
        r.1 == outcome_end(s@, p as int, lex(s@, p as int)),
{
    let c = s[p];
    let len = s.len();
    if is_digit_char(c) || ((c == '+' || c == '-') && len - p > 1 && is_digit_char(s[p + 1])) {
        return scan_number(s, p);
    }
    if c == '/' && len - p > 1 && s[p + 1] == '/' {
        return scan_comment(s, p);
    }
    match symbol(s, p) {
        Some((kind, w)) => {
            let lexeme = string_of(s, p, p + w);
            return (Ok(Token { kind, lexeme, start: p }), p + w);
        },
        None => {},
    }
    if c == '"' {
        scan_string(s, p)
    } else if is_alphabetic(c) || c == '_' {
        scan_name(s, p)
    } else {
        (Err(ScanError::InvalidChar { ch: c, position: p }), p + 1)
    }
}

/// The state of a scan as values: the source, the cursor, and whether an error
/// has stopped it.
pub struct Cursor {
    pub source: Seq<char>,
    pub pos: int,
    pub halted: bool,
}

/// Where the next token starts, or `None` when the scan is over.
pub open spec fn pull_start(c: Cursor) -> Option<int> {
    let q = skip_spaces(c.source, c.pos);
    if c.halted || q >= c.source.len() {
        None
    } else {
        Some(q)
    }
}

/// A scan over a text, pulled one token at a time. It stops for good at the end
/// of the text and after the first error.
pub struct SplitTokens {
    source: Vec<char>,
    pos: usize,
    halted: bool,
}

impl View for SplitTokens {
    type V = Cursor;

    closed spec fn view(&self) -> Cursor {
        Cursor { source: self.source@, pos: self.pos as int, halted: self.halted }
    }
}

impl SplitTokens {
    /// A scan of `string` from its start.
    pub fn new(string: &str) -> (r: SplitTokens)
        ensures
            r@ == (Cursor { source: string@, pos: 0, halted: false }),
    {
        SplitTokens { source: chars_of(string), pos: 0, halted: false }
    }

    /// The next token, or the error that stops the scan, or `None` when the scan
    /// is over. Spaces before a token are skipped.
    pub fn next(&mut self) -> (r: Option<Result<Token, ScanError>>)
        ensures
            match pull_start(old(self)@) {
                None => r is None && final(self)@ == old(self)@,
                Some(q) => {
                    let o = lex(old(self)@.source, q);
                    &&& r matches Some(res)
                    &&& yields(old(self)@.source, q, res, o)
                    &&& final(self)@ == (Cursor {
                        source: old(self)@.source,
                        pos: outcome_end(old(self)@.source, q, o),
                        halted: is_failure(o),
                    })
                },
            },
    {
        if self.halted {
            return None;
        }
        let len = self.source.len();
        let mut q = self.pos;
        while q < len && is_space_char(self.source[q])
            invariant
                len == self.source@.len(),
                self.pos <= q,
                skip_spaces(self.source@, q as int) == skip_spaces(self.source@, self.pos as int),
            decreases len - q,
        {
            q = q + 1;
        }
        if q >= len {
            return None;
        }
        let (res, end) = scan_at(&self.source, q);
        self.pos = end;
        self.halted = res.is_err();
        Some(res)
    }
}

fn is_space_char(c: char) -> (r: bool)
    ensures
        r == is_space(c),
{
    c == ' ' || c == '\t' || c == '\n' || c == '\r'
}

/// A scan of `string` from its start.
pub fn split_tokens(string: &str) -> (r: SplitTokens)
    ensures
        r@ == (Cursor { source: string@, pos: 0, halted: false }),
{
    SplitTokens::new(string)
}

} // verus!
