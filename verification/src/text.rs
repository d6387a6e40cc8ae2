//! Characters and words: the small text layer under the value parsers.

use vstd::prelude::*;
use vstd::std_specs::iter::IteratorSpec;
use vstd::utf8::{decode_utf8, valid_utf8};

verus! {

/// Appends one character to a string, through `String::push`.
#[verifier::external_body]
pub(crate) fn push_char(s: &mut String, c: char)
    ensures
        final(s)@ == old(s)@.push(c),
{
    s.push(c)
}

/// Whether `c` is white space in the sense of Unicode's `White_Space` property.
pub open spec fn is_whitespace(c: char) -> bool {
    let u = c as u32;
    (0x09 <= u <= 0x0D) || u == 0x20 || u == 0x85 || u == 0xA0 || u == 0x1680 || (0x2000 <= u
        <= 0x200A) || u == 0x2028 || u == 0x2029 || u == 0x202F || u == 0x205F || u == 0x3000
}

/// Whether `c` is one of the decimal digits `0` to `9`.
pub open spec fn is_digit(c: char) -> bool {
    '0' <= c <= '9'
}

/// The number a decimal digit stands for.
pub open spec fn digit_value(c: char) -> int {
    c as int - '0' as int
}

/// Whether every character of `s` is a decimal digit.
pub open spec fn all_digits(s: Seq<char>) -> bool {
    forall|i: int| 0 <= i < s.len() ==> is_digit(#[trigger] s[i])
}

/// The first position at or after `i` that holds no white space.
pub open spec fn skip_space(s: Seq<char>, i: int) -> int
    decreases s.len() - i,
{
    if 0 <= i < s.len() && is_whitespace(s[i]) {
        skip_space(s, i + 1)
    } else {
        i
    }
}

/// The first position at or after `i` that holds white space.
pub open spec fn word_end(s: Seq<char>, i: int) -> int
    decreases s.len() - i,
{
    if 0 <= i < s.len() && !is_whitespace(s[i]) {
        word_end(s, i + 1)
    } else {
        i
    }
}

/// Both scans move forward only, and stop inside the text.
pub proof fn lemma_scan_bounds(s: Seq<char>, i: int)
    requires
        0 <= i <= s.len(),
    ensures
        i <= skip_space(s, i) <= s.len(),
        i <= word_end(s, i) <= s.len(),
        i < s.len() && !is_whitespace(s[i]) ==> i < word_end(s, i),
        skip_space(s, i) < s.len() ==> !is_whitespace(s[skip_space(s, i)]),
        word_end(s, i) < s.len() ==> is_whitespace(s[word_end(s, i)]),
    decreases s.len() - i,
{
    if i < s.len() {
        lemma_scan_bounds(s, i + 1);
    }
}

/// The words of `s` that begin at or after position `i`: the maximal runs
/// of characters that are not white space, in order.
pub open spec fn words_from(s: Seq<char>, i: int) -> Seq<Seq<char>>
    decreases s.len() - i,
    when 0 <= i <= s.len()
    via words_from_decreases
{
    let a = skip_space(s, i);
    if a >= s.len() {
        Seq::empty()
    } else {
        let b = word_end(s, a);
        seq![s.subrange(a, b)] + words_from(s, b)
    }
}

#[via_fn]
proof fn words_from_decreases(s: Seq<char>, i: int) {
    lemma_scan_bounds(s, i);
    let a = skip_space(s, i);
    if a < s.len() {
        lemma_scan_bounds(s, a);
    }
}

/// The words of `s`, split at white space; no word is empty.
pub open spec fn words(s: Seq<char>) -> Seq<Seq<char>> {
    words_from(s, 0)
}

/// Tells whether `c` is white space.
pub fn char_is_whitespace(c: char) -> (res: bool)
    ensures
        res == is_whitespace(c),
{
    let u: u32 = c as u32;
    (0x09 <= u && u <= 0x0D) || u == 0x20 || u == 0x85 || u == 0xA0 || u == 0x1680 || (0x2000
        <= u && u <= 0x200A) || u == 0x2028 || u == 0x2029 || u == 0x202F || u == 0x205F || u
        == 0x3000
}

/// Tells whether `c` is a decimal digit.
pub fn char_is_digit(c: char) -> (res: bool)
    ensures
        res == is_digit(c),
{
    '0' <= c && c <= '9'
}

/// Finds the next word at or after `from`: the positions where it begins
/// and ends. The two are equal, and at the end of the text, where no word is left.
pub(crate) fn next_word(chars: &Vec<char>, from: usize) -> (res: (usize, usize))
    requires
        from <= chars@.len(),
    ensures
        res.0 == skip_space(chars@, from as int),
        from <= res.0,
        res.0 < chars@.len() ==> res.1 == word_end(chars@, res.0 as int) && res.0 < res.1,
        res.0 >= chars@.len() ==> res.0 == chars@.len() && res.1 == res.0,
        res.1 <= chars@.len(),
{
    let n = chars.len();
    let mut a: usize = from;
    while a < n && char_is_whitespace(chars[a])
        invariant
            from <= a <= n,
            n == chars@.len(),
            skip_space(chars@, from as int) == skip_space(chars@, a as int),
        decreases n - a,
    {
        a = a + 1;
    }
    let mut b: usize = a;
    while b < n && !char_is_whitespace(chars[b])
        invariant
            a <= b <= n,
            n == chars@.len(),
            word_end(chars@, a as int) == word_end(chars@, b as int),
        decreases n - b,
    {
        b = b + 1;
    }
    (a, b)
}

/// Where each word of the text lies: `spans[k]` holds the positions at which
/// the word `k` begins and ends.
pub open spec fn spans_of_words(s: Seq<char>, spans: Seq<(usize, usize)>) -> bool {
    &&& spans.len() == words(s).len()
    &&& forall|k: int|
        0 <= k < spans.len() ==> {
            &&& (#[trigger] spans[k]).0 <= spans[k].1 <= s.len()
            &&& s.subrange(spans[k].0 as int, spans[k].1 as int) == words(s)[k]
        }
}

/// Splits the text at white space and tells where each word lies.
pub fn split_words(chars: &Vec<char>) -> (spans: Vec<(usize, usize)>)
    ensures
        spans_of_words(chars@, spans@),
{
    let ghost s = chars@;
    let mut spans: Vec<(usize, usize)> = Vec::new();
    let mut i: usize = 0;
    loop
        invariant
            s == chars@,
            i <= s.len(),
            words(s) == Seq::new(spans@.len(), |k: int| s.subrange(spans@[k].0 as int, spans@[k].1 as int))
                + words_from(s, i as int),
            forall|k: int| 0 <= k < spans@.len() ==> (#[trigger] spans@[k]).0 <= spans@[k].1 <= s.len(),
        ensures
            spans_of_words(s, spans@),
        decreases s.len() - i,
    {
        let (a, b) = next_word(chars, i);
        if a >= chars.len() {
            assert(words(s) =~= Seq::new(
                spans@.len(),
                |k: int| s.subrange(spans@[k].0 as int, spans@[k].1 as int),
            ));
            break ;
        }
        let ghost before = spans@;
        spans.push((a, b));
        proof {
            assert(words_from(s, i as int) == seq![s.subrange(a as int, b as int)] + words_from(
                s,
                b as int,
            ));
            assert(Seq::new(
                spans@.len(),
                |k: int| s.subrange(spans@[k].0 as int, spans@[k].1 as int),
            ) =~= Seq::new(
                before.len(),
                |k: int| s.subrange(before[k].0 as int, before[k].1 as int),
            ) + seq![s.subrange(a as int, b as int)]);
        }
        i = b;
    }
    spans
}

/// The characters of `chars` from position `from` up to `to`.
pub(crate) fn slice_chars(chars: &Vec<char>, from: usize, to: usize) -> (out: Vec<char>)
    requires
        from <= to <= chars@.len(),
    ensures
        out@ == chars@.subrange(from as int, to as int),
{
    let mut out: Vec<char> = Vec::new();
    let mut i: usize = from;
    while i < to
        invariant
            from <= i <= to <= chars@.len(),
            out@ == chars@.subrange(from as int, i as int),
        decreases to - i,
    {
        out.push(chars[i]);
        i = i + 1;
    }
    out
}

/// The words `ws` written one after the other with one space between them.
pub open spec fn join_words(ws: Seq<Seq<char>>) -> Seq<char>
    decreases ws.len(),
{
    if ws.len() == 0 {
        Seq::empty()
    } else if ws.len() == 1 {
        ws[0]
    } else {
        join_words(ws.drop_last()) + seq![' '] + ws.last()
    }
}

/// Whether `w` can be a word: it is not empty and holds no white space.
pub open spec fn is_word(w: Seq<char>) -> bool {
    w.len() > 0 && forall|i: int| 0 <= i < w.len() ==> !is_whitespace(#[trigger] w[i])
}

/// A scan over a text that goes on behind it sees the same as a scan over
/// the text alone, up to where the text ends.
proof fn lemma_scan_prefix(t: Seq<char>, u: Seq<char>, i: int)
    requires
        0 <= i <= t.len(),
    ensures
        skip_space(t, i) < t.len() ==> skip_space(t + u, i) == skip_space(t, i),
        skip_space(t, i) >= t.len() ==> skip_space(t + u, i) == skip_space(t + u, t.len() as int),
        word_end(t, i) < t.len() ==> word_end(t + u, i) == word_end(t, i),
        word_end(t, i) >= t.len() ==> word_end(t + u, i) == word_end(t + u, t.len() as int),
    decreases t.len() - i,
{
    if i < t.len() {
        lemma_scan_prefix(t, u, i + 1);
    }
}

/// A word ends where the characters that are no white space end.
proof fn lemma_word_end_of_run(s: Seq<char>, i: int, end: int)
    requires
        0 <= i <= end <= s.len(),
        forall|j: int| i <= j < end ==> !is_whitespace(#[trigger] s[j]),
        end < s.len() ==> is_whitespace(s[end]),
    ensures
        word_end(s, i) == end,
    decreases end - i,
{
    if i < end {
        lemma_word_end_of_run(s, i + 1, end);
    }
}

/// No word of a text holds white space, and none is empty.
pub proof fn lemma_words_are_words(s: Seq<char>, i: int)
    requires
        0 <= i <= s.len(),
    ensures
        forall|k: int| 0 <= k < words_from(s, i).len() ==> is_word(#[trigger] words_from(s, i)[k]),
    decreases s.len() - i,
{
    lemma_scan_bounds(s, i);
    let a = skip_space(s, i);
    if a < s.len() {
        lemma_scan_bounds(s, a);
        let b = word_end(s, a);
        lemma_words_are_words(s, b);
        let w = s.subrange(a, b);
        assert(is_word(w)) by {
            lemma_run_holds_no_space(s, a);
        }
        assert forall|k: int| 0 <= k < words_from(s, i).len() implies is_word(
            #[trigger] words_from(s, i)[k],
        ) by {
            if k > 0 {
                assert(words_from(s, i)[k] == words_from(s, b)[k - 1]);
            }
        }
    }
}

/// Between the start of a word and its end there is no white space.
proof fn lemma_run_holds_no_space(s: Seq<char>, i: int)
    requires
        0 <= i <= s.len(),
    ensures
        forall|j: int| i <= j < word_end(s, i) ==> !is_whitespace(#[trigger] s[j]),
    decreases s.len() - i,
{
    if i < s.len() && !is_whitespace(s[i]) {
        lemma_run_holds_no_space(s, i + 1);
    }
}

/// The words of a text that is followed by a space and one more word are
/// the words of the text, and then that word.
proof fn lemma_words_then_word(t: Seq<char>, w: Seq<char>, i: int)
    requires
        0 <= i <= t.len(),
        is_word(w),
    ensures
        words_from(t + seq![' '] + w, i) == words_from(t, i).push(w),
    decreases t.len() - i,
{
    let u = seq![' '] + w;
    let whole = t + seq![' '] + w;
    assert(whole =~= t + u);
    lemma_scan_bounds(t, i);
    lemma_scan_prefix(t, u, i);
    let a = skip_space(t, i);
    if a < t.len() {
        lemma_scan_bounds(t, a);
        lemma_scan_prefix(t, u, a);
        let b = word_end(t, a);
        lemma_words_then_word(t, w, b);
        assert(whole.subrange(a, b) =~= t.subrange(a, b));
    } else {
        let start: int = t.len() as int + 1;
        assert(skip_space(whole, t.len() as int) == start) by {
            assert(skip_space(whole, start) == start);
        }
        lemma_word_end_of_run(whole, start, whole.len() as int);
        assert(whole.subrange(start, whole.len() as int) =~= w);
        assert(words_from(whole, whole.len() as int) =~= Seq::<Seq<char>>::empty());
    }
}

/// Words that are written with one space between them are found again when
/// the text is split.
pub proof fn lemma_words_of_join(ws: Seq<Seq<char>>)
    requires
        forall|k: int| 0 <= k < ws.len() ==> is_word(#[trigger] ws[k]),
    ensures
        words(join_words(ws)) == ws,
    decreases ws.len(),
{
    if ws.len() == 1 {
        let w = ws[0];
        lemma_word_end_of_run(w, 0, w.len() as int);
        assert(w.subrange(0, w.len() as int) =~= w);
        assert(words_from(w, w.len() as int) =~= Seq::<Seq<char>>::empty());
    } else if ws.len() > 1 {
        let init = ws.drop_last();
        lemma_words_of_join(init);
        lemma_words_then_word(join_words(init), ws.last(), 0);
    }
}

/// The text that bytes stand for: what they decode to where they are UTF-8,
/// and else one character for each byte, with the byte's number.
pub open spec fn text_of_bytes(bytes: Seq<u8>) -> Seq<char> {
    if valid_utf8(bytes) {
        decode_utf8(bytes)
    } else {
        Seq::new(bytes.len(), |i: int| bytes[i] as char)
    }
}

/// Decodes bytes with `std::str::from_utf8`: the text where they are valid
/// UTF-8, and nothing where they are not.
#[verifier::external_body]
fn utf8_text(bytes: &[u8]) -> (res: Option<String>)
    ensures
        match res {
            Some(s) => valid_utf8(bytes@) && s@ == decode_utf8(bytes@),
            None => !valid_utf8(bytes@),
        },
{
    match std::str::from_utf8(bytes) {
        Ok(s) => Some(s.to_owned()),
        Err(_) => None,
    }
}

/// Renders bytes as text.
pub fn string_of_bytes(bytes: &Vec<u8>) -> (out: String)
    ensures
        out@ == text_of_bytes(bytes@),
{
    match utf8_text(bytes.as_slice()) {
        Some(s) => s,
        None => {
            let mut out = String::new();
            let mut i: usize = 0;
            while i < bytes.len()
                invariant
                    i <= bytes@.len(),
                    out@ == Seq::new(i as nat, |k: int| bytes@[k] as char),
                decreases bytes@.len() - i,
            {
                push_char(&mut out, bytes[i] as char);
                i = i + 1;
            }
            out
        },
    }
}

/// The string made of the characters `chars`, in order.
pub fn string_of(chars: &Vec<char>) -> (out: String)
    ensures
        out@ == chars@,
{
    let mut out = String::new();
    let mut i: usize = 0;
    while i < chars.len()
        invariant
            i <= chars@.len(),
            out@ == chars@.take(i as int),
        decreases chars@.len() - i,
    {
        push_char(&mut out, chars[i]);
        i = i + 1;
    }
    out
}

/// The characters of `s`, in order.
pub fn to_chars(s: &str) -> (out: Vec<char>)
    ensures
        out@ == s@,
{
    let mut it = s.chars();
    let mut out: Vec<char> = Vec::new();
    loop
        invariant
            out@ + it.remaining() == s@,
            it.obeys_prophetic_iter_laws(),
        ensures
            out@ == s@,
        decreases s@.len() - out@.len(),
    {
        match it.next() {
            Some(c) => {
                out.push(c);
            },
            None => {
                break ;
            },
        }
    }
    out
}

} // verus!
