//! Decimal literals: the texts that stand for a floating-point number.
//!
//! ```text
//! Literal ::= Sign? ( 'inf' | 'infinity' | 'nan' | Number )
//! Number  ::= ( Digit+ | Digit+ '.' Digit* | Digit* '.' Digit+ ) Exp?
//! Exp     ::= 'e' Sign? Digit+
//! Sign    ::= [+-]
//! Digit   ::= [0-9]
//! ```
//!
//! Letters match in either case. The model keeps such a number as its
//! literal, and so keeps every digit that was written.

use vstd::prelude::*;
use crate::text::{
    char_is_digit, is_digit, slice_chars, spans_of_words, split_words, string_of, to_chars, words,
};

verus! {

/// The first position at or after `i` that holds no digit.
pub open spec fn digit_run_end(s: Seq<char>, i: int) -> int
    decreases s.len() - i,
{
    if 0 <= i < s.len() && is_digit(s[i]) {
        digit_run_end(s, i + 1)
    } else {
        i
    }
}

/// The lower-case form of an ASCII letter; any other character is unchanged.
pub open spec fn lower(c: char) -> char {
    if 'A' <= c <= 'Z' {
        ((c as u8 + 32) as u8) as char
    } else {
        c
    }
}

/// Whether the text from position `p` on is `word`, in either case.
pub open spec fn matches_word_at(s: Seq<char>, p: int, word: Seq<char>) -> bool {
    &&& s.len() - p == word.len()
    &&& forall|i: int| 0 <= i < word.len() ==> lower(#[trigger] s[p + i]) == word[i]
}

/// Whether the text from position `p` on names infinity or not-a-number.
pub open spec fn is_special_at(s: Seq<char>, p: int) -> bool {
    ||| matches_word_at(s, p, seq!['i', 'n', 'f'])
    ||| matches_word_at(s, p, seq!['i', 'n', 'f', 'i', 'n', 'i', 't', 'y'])
    ||| matches_word_at(s, p, seq!['n', 'a', 'n'])
}

/// Whether position `p` holds a sign.
pub open spec fn sign_at(s: Seq<char>, p: int) -> bool {
    0 <= p < s.len() && (s[p] == '+' || s[p] == '-')
}

/// Whether the text from position `p` on is an exponent: the letter `e`, an
/// optional sign, then digits to the end, at least one.
pub open spec fn is_exponent_at(s: Seq<char>, p: int) -> bool {
    let q = if sign_at(s, p + 1) {
        p + 2
    } else {
        p + 1
    };
    0 <= p < s.len() && lower(s[p]) == 'e' && q < s.len() && digit_run_end(s, q) == s.len()
}

/// Whether the text from position `p` on is a number: digits with at most
/// one point among them, at least one digit, and an optional exponent.
pub open spec fn is_number_at(s: Seq<char>, p: int) -> bool {
    let a = digit_run_end(s, p);
    let dotted = a < s.len() && s[a] == '.';
    let b = if dotted {
        digit_run_end(s, a + 1)
    } else {
        a
    };
    let digits = if dotted {
        b - p - 1
    } else {
        a - p
    };
    digits >= 1 && (b == s.len() || is_exponent_at(s, b))
}

/// Whether `s` is a decimal literal.
pub open spec fn is_decimal_literal(s: Seq<char>) -> bool {
    let p: int = if sign_at(s, 0) {
        1
    } else {
        0
    };
    is_special_at(s, p) || is_number_at(s, p)
}

fn lower_char(c: char) -> (res: char)
    ensures
        res == lower(c),
{
    if 'A' <= c && c <= 'Z' {
        ((c as u8) + 32) as char
    } else {
        c
    }
}

fn scan_digits(chars: &Vec<char>, from: usize) -> (res: usize)
    requires
        from <= chars@.len(),
    ensures
        res == digit_run_end(chars@, from as int),
        from <= res <= chars@.len(),
{
    let mut i: usize = from;
    while i < chars.len() && char_is_digit(chars[i])
        invariant
            from <= i <= chars@.len(),
            digit_run_end(chars@, from as int) == digit_run_end(chars@, i as int),
        decreases chars@.len() - i,
    {
        i = i + 1;
    }
    i
}

fn word_at(chars: &Vec<char>, p: usize, word: &Vec<char>) -> (res: bool)
    requires
        p <= chars@.len(),
    ensures
        res == matches_word_at(chars@, p as int, word@),
{
    let n = chars.len();
    if n - p != word.len() {
        return false;
    }
    let mut i: usize = 0;
    while i < word.len()
        invariant
            i <= word@.len(),
            n == chars@.len(),
            p <= chars@.len(),
            chars@.len() - p == word@.len(),
            forall|j: int| 0 <= j < i ==> lower(#[trigger] chars@[p + j]) == word@[j],
        decreases word@.len() - i,
    {
        if lower_char(chars[p + i]) != word[i] {
            return false;
        }
        i = i + 1;
    }
    true
}

fn special_at(chars: &Vec<char>, p: usize) -> (res: bool)
    requires
        p <= chars@.len(),
    ensures
        res == is_special_at(chars@, p as int),
{
    let inf: Vec<char> = vec!['i', 'n', 'f'];
    let infinity: Vec<char> = vec!['i', 'n', 'f', 'i', 'n', 'i', 't', 'y'];
    let nan: Vec<char> = vec!['n', 'a', 'n'];
    word_at(chars, p, &inf) || word_at(chars, p, &infinity) || word_at(chars, p, &nan)
}

fn exponent_at(chars: &Vec<char>, p: usize) -> (res: bool)
    requires
        p < chars@.len(),
    ensures
        res == is_exponent_at(chars@, p as int),
{
    let n = chars.len();
    if lower_char(chars[p]) != 'e' {
        return false;
    }
    let q: usize = if p + 1 < n && (chars[p + 1] == '+' || chars[p + 1] == '-') {
        p + 2
    } else {
        p + 1
    };
    if q >= n {
        return false;
    }
    scan_digits(chars, q) == n
}

fn number_at(chars: &Vec<char>, p: usize) -> (res: bool)
    requires
        p <= chars@.len(),
    ensures
        res == is_number_at(chars@, p as int),
{
    let n = chars.len();
    let a = scan_digits(chars, p);
    let dotted = a < n && chars[a] == '.';
    let b: usize = if dotted {
        scan_digits(chars, a + 1)
    } else {
        a
    };
    let digits: usize = if dotted {
        b - p - 1
    } else {
        a - p
    };
    digits >= 1 && (b == n || exponent_at(chars, b))
}

/// Tells whether `chars` is a decimal literal.
pub fn is_decimal(chars: &Vec<char>) -> (res: bool)
    ensures
        res == is_decimal_literal(chars@),
{
    let p: usize = if chars.len() > 0 && (chars[0] == '+' || chars[0] == '-') {
        1
    } else {
        0
    };
    special_at(chars, p) || number_at(chars, p)
}

/// Whether every one of the words `ws` is a decimal literal.
pub open spec fn all_decimal(ws: Seq<Seq<char>>) -> bool {
    forall|i: int| 0 <= i < ws.len() ==> is_decimal_literal(#[trigger] ws[i])
}

/// The texts of the strings `v`, in order.
pub open spec fn texts_of(v: Seq<String>) -> Seq<Seq<char>> {
    Seq::new(v.len(), |i: int| v[i]@)
}

/// Keeps `text` where it is a decimal literal.
pub fn decimal_from_text(text: &str) -> (res: Option<String>)
    ensures
        match res {
            Some(s) => is_decimal_literal(text@) && s@ == text@,
            None => !is_decimal_literal(text@),
        },
{
    let chars = to_chars(text);
    if is_decimal(&chars) {
        Some(string_of(&chars))
    } else {
        None
    }
}

/// Keeps the words of `text` where every one of them is a decimal literal.
pub fn decimals_from_text(text: &str) -> (res: Option<Vec<String>>)
    ensures
        match res {
            Some(v) => all_decimal(words(text@)) && texts_of(v@) == words(text@),
            None => !all_decimal(words(text@)),
        },
{
    let chars = to_chars(text);
    let spans = split_words(&chars);
    let ghost ws = words(text@);
    let mut out: Vec<String> = Vec::new();
    let mut k: usize = 0;
    while k < spans.len()
        invariant
            k <= spans@.len(),
            chars@ == text@,
            ws == words(text@),
            spans_of_words(chars@, spans@),
            out@.len() == k,
            forall|i: int| 0 <= i < k ==> is_decimal_literal(#[trigger] ws[i]) && out@[i]@ == ws[i],
        decreases spans@.len() - k,
    {
        let (a, b) = spans[k];
        let word = slice_chars(&chars, a, b);
        if !is_decimal(&word) {
            return None;
        }
        out.push(string_of(&word));
        k = k + 1;
    }
    Some(out)
}

} // verus!
