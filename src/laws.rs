use vstd::prelude::*;

use crate::model::{
    decode, digits_end, fits_i32, is_digit, is_number_literal, is_space, lex, literal_value,
    skip_spaces, starts_comment, starts_number, string_close, symbol_at, Outcome,
};
use crate::scanner::{pull_start, Cursor};
use crate::token::TokenKind;

verus! {

/// How a character is written inside a string literal.
pub open spec fn escape_char(c: char) -> Seq<char> {
    if c == '\\' {
        seq!['\\', '\\']
    } else if c == '"' {
        seq!['\\', '"']
    } else if c == '\n' {
        seq!['\\', 'n']
    } else if c == '\t' {
        seq!['\\', 't']
    } else if c == '\0' {
        seq!['\\', '0']
    } else {
        seq![c]
    }
}

/// The content of a string literal that decodes to `v`.
pub open spec fn escaped(v: Seq<char>) -> Seq<char>
    decreases v.len(),
{
    if v.len() == 0 {
        Seq::empty()
    } else {
        escape_char(v[0]) + escaped(v.drop_first())
    }
}

/// `v` escaped and put between quotes.
pub open spec fn quoted(v: Seq<char>) -> Seq<char> {
    seq!['"'] + escaped(v) + seq!['"']
}

/// A fresh scan of `s`.
pub open spec fn fresh(s: Seq<char>) -> Cursor {
    Cursor { source: s, pos: 0, halted: false }
}

proof fn skip_spaces_to_end(s: Seq<char>, p: int)
    requires
        0 <= p <= s.len(),
        forall|i: int| p <= i < s.len() ==> is_space(#[trigger] s[i]),
    ensures
        skip_spaces(s, p) == s.len(),
    decreases s.len() - p,
{
    if p < s.len() {
        skip_spaces_to_end(s, p + 1);
    }
}

/// A text made of spaces alone, the empty text among them, yields neither a
/// token nor an error: the first pull already ends the scan.
pub proof fn spaces_yield_nothing(s: Seq<char>)
    requires
        forall|i: int| 0 <= i < s.len() ==> is_space(#[trigger] s[i]),
    ensures
        pull_start(fresh(s)) is None,
{
    skip_spaces_to_end(s, 0);
}

proof fn digits_run(s: Seq<char>, p: int)
    requires
        0 <= p <= s.len(),
    ensures
        p <= digits_end(s, p) <= s.len(),
        forall|j: int| p <= j < digits_end(s, p) ==> is_digit(#[trigger] s[j]),
        digits_end(s, p) < s.len() ==> !is_digit(s[digits_end(s, p)]),
    decreases s.len() - p,
{
    if p < s.len() && is_digit(s[p]) {
        digits_run(s, p + 1);
    }
}

/// A number token's lexeme is a number literal, and reading it back gives the
/// token's value.
pub proof fn scanned_number_reparses(s: Seq<char>, p: int)
    requires
        0 <= p < s.len(),
        lex(s, p) matches Outcome::Token { kind: TokenKind::Number(_), .. },
    ensures
        ({
            let (n, e) = match lex(s, p) {
                Outcome::Token { kind: TokenKind::Number(n), end } => (n, end),
                _ => (0i32, 0int),
            };
            &&& is_number_literal(s.subrange(p, e))
            &&& literal_value(s.subrange(p, e)) == n as int
        }),
{
    digits_run(s, p + 1);
    let e = digits_end(s, p + 1);
    let t = s.subrange(p, e);
    if t[0] == '+' || t[0] == '-' {
        let d = t.drop_first();
        assert forall|i: int| 0 <= i < d.len() implies is_digit(#[trigger] d[i]) by {
            assert(d[i] == s[p + 1 + i]);
        }
    } else {
        assert forall|i: int| 0 <= i < t.len() implies is_digit(#[trigger] t[i]) by {
            if i > 0 {
                assert(t[i] == s[p + i]);
            }
        }
    }
}

/// A number literal whose value fits in an `i32` scans, alone, as one number
/// token that spans all of it and holds its value.
pub proof fn number_literal_scans_whole(t: Seq<char>)
    requires
        is_number_literal(t),
        fits_i32(literal_value(t)),
    ensures
        pull_start(fresh(t)) == Some(0int),
        lex(t, 0) == (Outcome::Token { kind: TokenKind::Number(literal_value(t) as i32), end: t.len() as int }),
{
    if t[0] == '+' || t[0] == '-' {
        let d = t.drop_first();
        assert(is_digit(d[0]));
        assert forall|j: int| 1 <= j < t.len() implies is_digit(#[trigger] t[j]) by {
            assert(t[j] == d[j - 1]);
        }
    } else {
        assert(is_digit(t[0]));
    }
    digits_run(t, 1);
    assert(t.subrange(0, t.len() as int) =~= t);
}

proof fn escaped_scans(s: Seq<char>, i: int, v: Seq<char>)
    requires
        0 <= i,
        i + escaped(v).len() < s.len(),
        s.subrange(i, i + escaped(v).len()) == escaped(v),
        s[i + escaped(v).len()] == '"',
    ensures
        string_close(s, i) == i + escaped(v).len(),
        decode(s, i, i + escaped(v).len()) == Ok::<Seq<char>, int>(v),
    decreases v.len(),
{
    let close = i + escaped(v).len();
    if v.len() == 0 {
        assert(close == i);
        assert(v =~= Seq::<char>::empty());
    } else {
        let c = v[0];
        let e = escape_char(c);
        let rest = v.drop_first();
        let k = e.len() as int;
        assert(escaped(v) == e + escaped(rest));
        assert(s.subrange(i + k, i + k + escaped(rest).len()) =~= escaped(rest)) by {
            assert forall|j: int| 0 <= j < escaped(rest).len() implies
                s.subrange(i + k, i + k + escaped(rest).len())[j] == escaped(rest)[j] by {
                assert(s.subrange(i, close)[k + j] == escaped(v)[k + j]);
            }
        }
        escaped_scans(s, i + k, rest);
        assert(s[i] == s.subrange(i, close)[0]);
        assert(v =~= seq![c] + rest);
        if k == 2 {
            assert(s[i + 1] == s.subrange(i, close)[1]);
        }
    }
}

/// Escaping any text and putting it between quotes gives a literal that scans,
/// alone, as one string token whose decoded value is that text.
pub proof fn escape_round_trip(v: Seq<char>)
    ensures
        pull_start(fresh(quoted(v))) == Some(0int),
        lex(quoted(v), 0) == (Outcome::Str { value: v, end: quoted(v).len() as int }),
{
    let s = quoted(v);
    let n = escaped(v).len() as int;
    assert(s.subrange(1, 1 + n) =~= escaped(v));
    escaped_scans(s, 1, v);
    assert(!starts_number(s, 0));
    assert(!starts_comment(s, 0));
    assert(symbol_at(s, 0) is None);
}

} // verus!
