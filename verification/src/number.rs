//! Decimal integers as text: reading them, writing them, and the proof that
//! what was written reads back as the same number.

use vstd::prelude::*;
use crate::text::{
    all_digits, char_is_digit, digit_value, is_digit, is_word, push_char, spans_of_words,
    split_words, to_chars, words,
};

verus! {

/// The number written by a run of decimal digits, most significant first.
pub open spec fn digits_value(s: Seq<char>) -> int
    decreases s.len(),
{
    if s.len() == 0 {
        0
    } else {
        digits_value(s.drop_last()) * 10 + digit_value(s.last())
    }
}

/// Whether `s` begins with a sign: `+` always counts, `-` only for a signed kind.
pub open spec fn has_sign(s: Seq<char>, signed: bool) -> bool {
    s.len() > 0 && (s[0] == '+' || (signed && s[0] == '-'))
}

/// Whether `s` is the text of a negative number of a signed kind.
pub open spec fn is_negative(s: Seq<char>, signed: bool) -> bool {
    signed && s.len() > 0 && s[0] == '-'
}

/// The digits of `s`: what follows its sign, or all of it where it has none.
pub open spec fn unsigned_part(s: Seq<char>, signed: bool) -> Seq<char> {
    if has_sign(s, signed) {
        s.drop_first()
    } else {
        s
    }
}

/// The integer that the text `s` stands for, if it stands for one between
/// `lo` and `hi`: an optional sign, then one digit or more, and nothing else.
pub open spec fn parse_integer(s: Seq<char>, signed: bool, lo: int, hi: int) -> Option<int> {
    let body = unsigned_part(s, signed);
    let v = if is_negative(s, signed) {
        -digits_value(body)
    } else {
        digits_value(body)
    };
    if body.len() > 0 && all_digits(body) && lo <= v <= hi {
        Some(v)
    } else {
        None
    }
}

/// The character of one decimal digit.
pub open spec fn digit_char(d: int) -> char {
    ((48 + d) as u8) as char
}

/// The digits of `n`, most significant first, without leading zeros.
pub open spec fn digits_of(n: nat) -> Seq<char>
    decreases n,
{
    if n < 10 {
        seq![digit_char(n as int)]
    } else {
        digits_of(n / 10).push(digit_char((n % 10) as int))
    }
}

/// The text of the integer `v`: a minus sign where it is negative, then its digits.
pub open spec fn integer_text(v: int) -> Seq<char> {
    if v < 0 {
        seq!['-'] + digits_of((-v) as nat)
    } else {
        digits_of(v as nat)
    }
}

/// A run of digits never stands for less than one of its prefixes, nor for
/// less than zero.
pub proof fn lemma_digits_value_prefix(s: Seq<char>, k: int)
    requires
        all_digits(s),
        0 <= k <= s.len(),
    ensures
        0 <= digits_value(s.take(k)) <= digits_value(s),
    decreases s.len(),
{
    if k == s.len() {
        assert(s.take(k) =~= s);
        if s.len() > 0 {
            lemma_digits_value_prefix(s.drop_last(), k - 1);
        }
    } else {
        lemma_digits_value_prefix(s.drop_last(), k);
        assert(s.drop_last().take(k) =~= s.take(k));
    }
}

/// The digits of `n` are digits, at least one, and stand for `n`.
pub proof fn lemma_digits_of(n: nat)
    ensures
        digits_of(n).len() >= 1,
        all_digits(digits_of(n)),
        digits_value(digits_of(n)) == n,
        is_digit(digits_of(n)[0]),
    decreases n,
{
    if n < 10 {
        let s = digits_of(n);
        assert(digits_value(s.drop_last()) == 0);
    } else {
        lemma_digits_of(n / 10);
        let s = digits_of(n);
        assert(s.drop_last() =~= digits_of(n / 10));
    }
}

/// Writing an integer and reading the text back gives the integer again.
pub proof fn lemma_integer_text_round_trip(v: int, signed: bool, lo: int, hi: int)
    requires
        lo <= v <= hi,
        signed || v >= 0,
    ensures
        parse_integer(integer_text(v), signed, lo, hi) == Some(v),
{
    let s = integer_text(v);
    if v < 0 {
        lemma_digits_of((-v) as nat);
        assert(s.drop_first() =~= digits_of((-v) as nat));
    } else {
        lemma_digits_of(v as nat);
    }
}

/// The text of an integer can stand as a word: it holds no white space.
pub proof fn lemma_integer_text_is_word(v: int)
    ensures
        is_word(integer_text(v)),
{
    if v < 0 {
        lemma_digits_of((-v) as nat);
    } else {
        lemma_digits_of(v as nat);
    }
}

/// Reads the integer written in `chars` between `start` and `end`.
pub(crate) fn parse_integer_range(
    chars: &Vec<char>,
    start: usize,
    end: usize,
    signed: bool,
    lo: i64,
    hi: i64,
) -> (res: Option<i64>)
    requires
        start <= end <= chars@.len(),
    ensures
        parse_integer(chars@.subrange(start as int, end as int), signed, lo as int, hi as int)
            == match res {
            Some(v) => Some(v as int),
            None => None,
        },
{
    let ghost s = chars@.subrange(start as int, end as int);
    if start == end {
        return None;
    }
    let first = chars[start];
    let negative = signed && first == '-';
    let signed_text = first == '+' || negative;
    let body_start: usize = if signed_text {
        start + 1
    } else {
        start
    };
    let ghost body = unsigned_part(s, signed);
    if body_start == end {
        return None;
    }
    let mut acc: u64 = 0;
    let mut i: usize = body_start;
    while i < end
        invariant
            start <= body_start <= i <= end <= chars@.len(),
            s == chars@.subrange(start as int, end as int),
            body == unsigned_part(s, signed),
            body == chars@.subrange(body_start as int, end as int),
            all_digits(body.take(i - body_start)),
            acc == digits_value(body.take(i - body_start)),
        decreases end - i,
    {
        let c = chars[i];
        assert(c == body[i - body_start]);
        if !char_is_digit(c) {
            return None;
        }
        let d: u64 = (c as u32 - '0' as u32) as u64;
        let ghost next = body.take(i - body_start + 1);
        assert(next.drop_last() =~= body.take(i - body_start));
        if acc > (u64::MAX - d) / 10 {
            proof {
                if all_digits(body) {
                    lemma_digits_value_prefix(body, i - body_start + 1);
                }
            }
            return None;
        }
        acc = acc * 10 + d;
        i = i + 1;
    }
    assert(body.take(i - body_start) =~= body);
    let v: i128 = if negative {
        -(acc as i128)
    } else {
        acc as i128
    };
    if lo as i128 <= v && v <= hi as i128 {
        Some(v as i64)
    } else {
        None
    }
}

/// Reads the integer written by the whole of `text`.
pub fn parse_integer_text(text: &str, signed: bool, lo: i64, hi: i64) -> (res: Option<i64>)
    ensures
        parse_integer(text@, signed, lo as int, hi as int) == match res {
            Some(v) => Some(v as int),
            None => None,
        },
{
    let chars = to_chars(text);
    assert(chars@.subrange(0, chars@.len() as int) =~= text@);
    parse_integer_range(&chars, 0, chars.len(), signed, lo, hi)
}

/// The integers that the words `ws` stand for, if every one of them stands
/// for an integer between `lo` and `hi`.
pub open spec fn parse_integer_words(ws: Seq<Seq<char>>, signed: bool, lo: int, hi: int) -> Option<
    Seq<int>,
> {
    if forall|i: int| 0 <= i < ws.len() ==> parse_integer(#[trigger] ws[i], signed, lo, hi) is Some {
        Some(Seq::new(ws.len(), |i: int| parse_integer(ws[i], signed, lo, hi)->0))
    } else {
        None
    }
}

/// Reads the integers written in `text`, one in each word.
pub fn parse_integers_text(text: &str, signed: bool, lo: i64, hi: i64) -> (res: Option<Vec<i64>>)
    ensures
        parse_integer_words(words(text@), signed, lo as int, hi as int) == match res {
            Some(v) => Some(Seq::new(v@.len(), |i: int| v@[i] as int)),
            None => None,
        },
        res matches Some(v) ==> forall|i: int| 0 <= i < v@.len() ==> lo <= #[trigger] v@[i] <= hi,
{
    let chars = to_chars(text);
    let spans = split_words(&chars);
    let ghost ws = words(text@);
    let mut out: Vec<i64> = Vec::new();
    let mut k: usize = 0;
    while k < spans.len()
        invariant
            k <= spans@.len(),
            chars@ == text@,
            ws == words(text@),
            spans_of_words(chars@, spans@),
            out@.len() == k,
            forall|i: int|
                0 <= i < k ==> parse_integer(#[trigger] ws[i], signed, lo as int, hi as int)
                    == Some(out@[i] as int),
            forall|i: int| 0 <= i < k ==> lo <= #[trigger] out@[i] <= hi,
        decreases spans@.len() - k,
    {
        let (a, b) = spans[k];
        match parse_integer_range(&chars, a, b, signed, lo, hi) {
            Some(v) => {
                out.push(v);
            },
            None => {
                return None;
            },
        }
        k = k + 1;
    }
    assert(Seq::new(ws.len(), |i: int| parse_integer(ws[i], signed, lo as int, hi as int)->0)
        =~= Seq::new(out@.len(), |i: int| out@[i] as int));
    Some(out)
}

/// The character of one hexadecimal digit, in upper case.
pub open spec fn hex_char(d: int) -> char {
    if d < 10 {
        ((48 + d) as u8) as char
    } else {
        ((55 + d) as u8) as char
    }
}

/// The last `width` hexadecimal digits of `n`, with leading zeros where `n` has fewer.
pub open spec fn hex_padded(n: nat, width: nat) -> Seq<char>
    decreases width,
{
    if width == 0 {
        Seq::empty()
    } else {
        hex_padded(n / 16, (width - 1) as nat).push(hex_char((n % 16) as int))
    }
}

/// Appends the last `width` hexadecimal digits of `n` to `out`.
pub fn push_hex(out: &mut String, n: u64, width: u32)
    ensures
        final(out)@ == old(out)@ + hex_padded(n as nat, width as nat),
    decreases width,
{
    if width != 0 {
        push_hex(out, n / 16, width - 1);
        let d: u8 = (n % 16) as u8;
        let c: char = if d < 10 {
            (48u8 + d) as char
        } else {
            (55u8 + d) as char
        };
        push_char(out, c);
    }
}

/// Appends the digits of `n` to `out`.
pub fn push_digits(out: &mut String, n: u64)
    ensures
        final(out)@ == old(out)@ + digits_of(n as nat),
    decreases n,
{
    if n >= 10 {
        push_digits(out, n / 10);
    }
    let d: u8 = (n % 10) as u8;
    push_char(out, (48u8 + d) as char);
}

/// Appends the text of the integer `v` to `out`.
pub fn push_integer(out: &mut String, v: i64)
    ensures
        final(out)@ == old(out)@ + integer_text(v as int),
{
    if v < 0 {
        push_char(out, '-');
        push_digits(out, (-(v as i128)) as u64);
    } else {
        push_digits(out, v as u64);
    }
}

} // verus!
