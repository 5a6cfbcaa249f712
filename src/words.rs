use vstd::prelude::*;

use crate::chars::{
    alphabetic_char, chars_of, is_alphabetic, is_alphanumeric, is_numeric, numeric_char, string_of,
};

verus! {

/// Characters that make up an operator word.
pub open spec fn is_op_char(c: char) -> bool {
    c == '+' || c == '-' || c == '*' || c == '/' || c == '\\'
}

/// A word: a run of numeric characters, a run of alphanumeric characters that
/// starts with an alphabetic one, or a run of operator characters; never empty.
pub open spec fn valid_word(t: Seq<char>) -> bool {
    &&& t.len() > 0
    &&& {
        ||| forall|i: int| 0 <= i < t.len() ==> numeric_char(#[trigger] t[i])
        ||| alphabetic_char(t[0]) && forall|i: int|
            0 <= i < t.len() ==> alphabetic_char(#[trigger] t[i]) || numeric_char(t[i])
        ||| forall|i: int| 0 <= i < t.len() ==> is_op_char(#[trigger] t[i])
    }
}

/// The length of the longest prefix of `s`, at most `n` long, that is a word;
/// 0 when there is none.
pub open spec fn longest_word(s: Seq<char>, n: int) -> int
    decreases n,
{
    if n <= 0 {
        0
    } else if valid_word(s.subrange(0, n)) {
        n
    } else {
        longest_word(s, n - 1)
    }
}

/// `s` cut greedily into words, each the longest that starts where the last one
/// ended; or the rest of `s` from which no word can be cut.
pub open spec fn split_words(s: Seq<char>) -> Result<Seq<Seq<char>>, Seq<char>>
    decreases s.len(),
{
    if valid_word(s) {
        Ok(seq![s])
    } else {
        let b = longest_word(s, s.len() as int);
        if b <= 0 || b > s.len() {
            Err(s)
        } else {
            match split_words(s.subrange(b, s.len() as int)) {
                Ok(w) => Ok(seq![s.subrange(0, b)] + w),
                Err(e) => Err(e),
            }
        }
    }
}

/// Puts the words `a` before a split, leaving a failure as it is.
pub open spec fn after_words(a: Seq<Seq<char>>, r: Result<Seq<Seq<char>>, Seq<char>>) -> Result<
    Seq<Seq<char>>,
    Seq<char>,
> {
    match r {
        Ok(w) => Ok(a + w),
        Err(e) => Err(e),
    }
}

/// The characters of each string.
pub open spec fn texts(v: Seq<String>) -> Seq<Seq<char>> {
    v.map_values(|x: String| x@)
}

/// Whether `s[start..end]` is a word.
fn valid_span(s: &Vec<char>, start: usize, end: usize) -> (r: bool)
    requires
        start <= end <= s@.len(),
    ensures
        r == valid_word(s@.subrange(start as int, end as int)),
{
    let ghost t = s@.subrange(start as int, end as int);
    if start == end {
        return false;
    }
    let mut all_num = true;
    let mut all_alnum = true;
    let mut all_op = true;
    let mut i: usize = start;
    while i < end
        invariant
            start <= i <= end <= s@.len(),
            t == s@.subrange(start as int, end as int),
            all_num == forall|j: int| 0 <= j < i - start ==> numeric_char(#[trigger] t[j]),
            all_alnum == forall|j: int|
                0 <= j < i - start ==> alphabetic_char(#[trigger] t[j]) || numeric_char(t[j]),
            all_op == forall|j: int| 0 <= j < i - start ==> is_op_char(#[trigger] t[j]),
        decreases end - i,
    {
        let c = s[i];
        assert(c == t[i - start]);
        all_num = all_num && is_numeric(c);
        all_alnum = all_alnum && is_alphanumeric(c);
        all_op = all_op && (c == '+' || c == '-' || c == '*' || c == '/' || c == '\\');
        i = i + 1;
    }
    assert(s@[start as int] == t[0]);
    all_num || (is_alphabetic(s[start]) && all_alnum) || all_op
}

/// Whether `token` is a single word: all numeric, alphanumeric and led by an
/// alphabetic character, or all of `+ - * / \`.
pub fn is_valid_token(token: &str) -> (r: bool)
    ensures
        r == valid_word(token@),
{
    let s = chars_of(token);
    proof {
        assert(s@.subrange(0, s@.len() as int) =~= s@);
    }
    valid_span(&s, 0, s.len())
}

/// Cuts `string` into words, each time the longest that can be cut, and appends
/// them to `vec`. Fails with the rest of the text where no word can be cut, the
/// empty text included.
pub fn tokenize(string: &str, vec: Vec<String>) -> (r: Result<Vec<String>, String>)
    ensures
        match split_words(string@) {
            Ok(w) => r matches Ok(v) && texts(v@) == texts(vec@) + w,
            Err(e) => r matches Err(x) && x@ == e,
        },
{
    let s = chars_of(string);
    let len = s.len();
    let mut out = vec;
    let mut st: usize = 0;
    proof {
        assert(s@.subrange(0, len as int) =~= s@);
        assert(texts(vec@) + Seq::<Seq<char>>::empty() =~= texts(vec@));
    }
    loop
        invariant
            st <= len == s@.len(),
            s@ == string@,
            after_words(texts(out@), split_words(s@.subrange(st as int, len as int)))
                == after_words(texts(vec@), split_words(string@)),
        decreases len - st,
    {
        let ghost rest = s@.subrange(st as int, len as int);
        if valid_span(&s, st, len) {
            let w = string_of(&s, st, len);
            let ghost before = out@;
            out.push(w);
            proof {
                assert(texts(out@) =~= texts(before) + seq![rest]);
            }
            return Ok(out);
        }
        let mut n: usize = len - st;
        while n > 0 && !valid_span(&s, st, st + n)
            invariant
                st <= len == s@.len(),
                n <= len - st,
                rest == s@.subrange(st as int, len as int),
                longest_word(rest, n as int) == longest_word(rest, rest.len() as int),
            decreases n,
        {
            proof {
                assert(rest.subrange(0, n as int) =~= s@.subrange(st as int, st + n));
            }
            n = n - 1;
        }
        proof {
            if n > 0 {
                assert(rest.subrange(0, n as int) =~= s@.subrange(st as int, st + n));
            }
        }
        if n == 0 {
            return Err(string_of(&s, st, len));
        }
        let w = string_of(&s, st, st + n);
        let ghost before = out@;
        out.push(w);
        proof {
            assert(rest.subrange(n as int, rest.len() as int) =~= s@.subrange(st + n, len as int));
            let head = rest.subrange(0, n as int);
            assert(texts(out@) =~= texts(before) + seq![head]);
            assert(longest_word(rest, rest.len() as int) == n);
            let tail = split_words(rest.subrange(n as int, rest.len() as int));
            if tail is Ok {
                assert(texts(out@) + tail->Ok_0 =~= texts(before) + (seq![head] + tail->Ok_0));
            }
        }
        st = st + n;
    }
}

} // verus!
