//! Calendar dates and times of day in their fixed-width text forms:
//! `YYYYMMDD`, `HHMMSS[.ffffff]` and `YYYYMMDDHHMMSS[.ffffff]`.

use vstd::prelude::*;
use chrono::{Datelike, Timelike};
use crate::number::{digit_char, digits_value};
use crate::text::{all_digits, char_is_digit, is_digit, push_char, to_chars};

verus! {

/// A day of the proleptic Gregorian calendar, in the years 0 to 9999.
#[derive(Debug, Clone, Copy, PartialEq, Eq, Structural)]
pub struct DicomDate {
    pub year: u16,
    pub month: u8,
    pub day: u8,
}

/// A time of day, to the microsecond. The second 60 is a leap second.
#[derive(Debug, Clone, Copy, PartialEq, Eq, Structural)]
pub struct DicomTime {
    pub hour: u8,
    pub minute: u8,
    pub second: u8,
    pub microsecond: u32,
}

/// A day and a time of that day.
#[derive(Debug, Clone, Copy, PartialEq, Eq, Structural)]
pub struct DicomDateTime {
    pub date: DicomDate,
    pub time: DicomTime,
}

/// Whether `y` is a leap year.
pub open spec fn is_leap_year(y: int) -> bool {
    y % 4 == 0 && (y % 100 != 0 || y % 400 == 0)
}

/// The number of days of month `m` in year `y`.
pub open spec fn days_in_month(y: int, m: int) -> int {
    if m == 2 {
        if is_leap_year(y) {
            29
        } else {
            28
        }
    } else if m == 4 || m == 6 || m == 9 || m == 11 {
        30
    } else {
        31
    }
}

/// Whether the calendar has a day `d` in month `m` of year `y`.
pub open spec fn date_exists(y: int, m: int, d: int) -> bool {
    1 <= m <= 12 && 1 <= d <= days_in_month(y, m)
}

/// Whether `h:m:s` is a time of day; the second may be a leap second.
pub open spec fn time_exists(h: int, m: int, s: int) -> bool {
    0 <= h <= 23 && 0 <= m <= 59 && 0 <= s <= 60
}

impl DicomDate {
    /// Whether this is a day that exists, in a year of four digits.
    pub open spec fn wf(self) -> bool {
        self.year <= 9999 && date_exists(self.year as int, self.month as int, self.day as int)
    }
}

impl DicomTime {
    /// Whether this is a time of day.
    pub open spec fn wf(self) -> bool {
        time_exists(self.hour as int, self.minute as int, self.second as int) && self.microsecond
            <= 999_999
    }
}

impl DicomDateTime {
    /// Whether both parts are well formed.
    pub open spec fn wf(self) -> bool {
        self.date.wf() && self.time.wf()
    }
}

/// Whether `s` is `n` digits, alone or followed by a point and six digits more.
pub open spec fn is_stamp_text(s: Seq<char>, n: int) -> bool {
    ||| s.len() == n && all_digits(s)
    ||| s.len() == n + 7 && all_digits(s.take(n)) && s[n] == '.' && all_digits(s.skip(n + 1))
}

/// The number written by the `len` digits of `s` from position `from` on.
pub open spec fn field(s: Seq<char>, from: int, len: int) -> int {
    digits_value(s.subrange(from, from + len))
}

/// The day that the eight digits `s` stand for, where the calendar has it.
pub open spec fn date_of_text(s: Seq<char>) -> Option<DicomDate> {
    let y = field(s, 0, 4);
    let m = field(s, 4, 2);
    let d = field(s, 6, 2);
    if is_stamp_text(s, 8) && s.len() == 8 && date_exists(y, m, d) {
        Some(DicomDate { year: y as u16, month: m as u8, day: d as u8 })
    } else {
        None
    }
}

/// The millionths of a second written in a time text: zero where it has no fraction.
pub open spec fn fraction_of_text(s: Seq<char>) -> int {
    if s.len() == 13 {
        field(s, 7, 6)
    } else {
        0
    }
}

/// The time that the text `s` stands for, where it is a time of day.
pub open spec fn time_of_text(s: Seq<char>) -> Option<DicomTime> {
    let h = field(s, 0, 2);
    let m = field(s, 2, 2);
    let sec = field(s, 4, 2);
    if is_stamp_text(s, 6) && time_exists(h, m, sec) {
        Some(
            DicomTime {
                hour: h as u8,
                minute: m as u8,
                second: sec as u8,
                microsecond: fraction_of_text(s) as u32,
            },
        )
    } else {
        None
    }
}

/// The day and time that the text `s` stands for, where both exist.
pub open spec fn datetime_of_text(s: Seq<char>) -> Option<DicomDateTime> {
    if is_stamp_text(s, 14) {
        match (date_of_text(s.take(8)), time_of_text(s.skip(8))) {
            (Some(date), Some(time)) => Some(DicomDateTime { date, time }),
            _ => None,
        }
    } else {
        None
    }
}

/// A time as hour, minute, second and nanosecond, where a leap second is
/// written as second 59 with a thousand million nanoseconds more.
pub open spec fn leap_encoding(t: DicomTime) -> (u32, u32, u32, u32) {
    if t.second == 60 {
        (t.hour as u32, t.minute as u32, 59u32, (1_000_000_000 + t.microsecond * 1000) as u32)
    } else {
        (t.hour as u32, t.minute as u32, t.second as u32, (t.microsecond * 1000) as u32)
    }
}

/// A day as year, month and day of the month.
pub open spec fn date_fields(d: DicomDate) -> (i32, u32, u32) {
    (d.year as i32, d.month as u32, d.day as u32)
}

/// Reads eight digits as year, month and day with
/// `chrono::NaiveDate::parse_from_str` and the format `%Y%m%d`. For such a text
/// the first four digits are the year, the next two the month and the last two
/// the day, and the call succeeds exactly where the calendar has that day.
#[verifier::external_body]
fn parse_date(text: &str) -> (res: Option<(i32, u32, u32)>)
    requires
        is_stamp_text(text@, 8),
        text@.len() == 8,
    ensures
        res == match date_of_text(text@) {
            Some(d) => Some(date_fields(d)),
            None => None,
        },
{
    match chrono::NaiveDate::parse_from_str(text, "%Y%m%d") {
        Ok(d) => Some((d.year(), d.month(), d.day())),
        Err(_) => None,
    }
}

/// Reads six digits, alone or with a fraction of six digits, as a time of day
/// with `chrono::NaiveTime::parse_from_str` and the format `%H%M%S%.6f`. For
/// such a text the digits are hour, minute and second, two each, and the
/// fraction counts microseconds; the call succeeds exactly where hour and
/// minute are in range and the second is at most 60, and hands a leap second
/// out as second 59 with a thousand million nanoseconds more.
#[verifier::external_body]
fn parse_time(text: &str) -> (res: Option<(u32, u32, u32, u32)>)
    requires
        is_stamp_text(text@, 6),
    ensures
        res == match time_of_text(text@) {
            Some(t) => Some(leap_encoding(t)),
            None => None,
        },
{
    match chrono::NaiveTime::parse_from_str(text, "%H%M%S%.6f") {
        Ok(t) => Some((t.hour(), t.minute(), t.second(), t.nanosecond())),
        Err(_) => None,
    }
}

/// Reads fourteen digits, alone or with a fraction of six digits, as a day and
/// a time with `chrono::NaiveDateTime::parse_from_str` and the format
/// `%Y%m%d%H%M%S%.6f`. The first eight digits are read as a date and the rest
/// as a time of day, and the call succeeds exactly where both exist.
#[verifier::external_body]
fn parse_datetime(text: &str) -> (res: Option<((i32, u32, u32), (u32, u32, u32, u32))>)
    requires
        is_stamp_text(text@, 14),
    ensures
        res == match datetime_of_text(text@) {
            Some(v) => Some((date_fields(v.date), leap_encoding(v.time))),
            None => None,
        },
{
    match chrono::NaiveDateTime::parse_from_str(text, "%Y%m%d%H%M%S%.6f") {
        Ok(v) => Some(
            ((v.year(), v.month(), v.day()), (v.hour(), v.minute(), v.second(), v.nanosecond())),
        ),
        Err(_) => None,
    }
}

/// Ten to the power `n`.
pub open spec fn pow10(n: nat) -> nat
    decreases n,
{
    if n == 0 {
        1
    } else {
        10 * pow10((n - 1) as nat)
    }
}

/// A run of `n` digits stands for a number below ten to the power `n`.
pub proof fn lemma_digits_value_bound(s: Seq<char>)
    requires
        all_digits(s),
    ensures
        0 <= digits_value(s) < pow10(s.len()),
    decreases s.len(),
{
    if s.len() > 0 {
        lemma_digits_value_bound(s.drop_last());
    }
}

/// Any part of a run of digits is a run of digits, and stands for a number
/// below ten to the power of its length.
pub proof fn lemma_field_bound(s: Seq<char>, from: int, len: int)
    requires
        0 <= from,
        0 <= len,
        from + len <= s.len(),
        forall|i: int| from <= i < from + len ==> is_digit(#[trigger] s[i]),
    ensures
        all_digits(s.subrange(from, from + len)),
        0 <= field(s, from, len) < pow10(len as nat),
{
    let part = s.subrange(from, from + len);
    lemma_digits_value_bound(part);
}

proof fn lemma_pow10_values()
    ensures
        pow10(2) == 100,
        pow10(4) == 10_000,
        pow10(6) == 1_000_000,
{
    reveal_with_fuel(pow10, 7);
}

/// A date read from text is well formed.
pub proof fn lemma_date_of_text_wf(s: Seq<char>)
    ensures
        date_of_text(s) matches Some(d) ==> d.wf() && d.year == field(s, 0, 4) && d.month
            == field(s, 4, 2) && d.day == field(s, 6, 2),
{
    if date_of_text(s) is Some {
        lemma_pow10_values();
        lemma_field_bound(s, 0, 4);
    }
}

/// A time read from text is well formed.
pub proof fn lemma_time_of_text_wf(s: Seq<char>)
    ensures
        time_of_text(s) matches Some(t) ==> t.wf() && t.hour == field(s, 0, 2) && t.minute
            == field(s, 2, 2) && t.second == field(s, 4, 2) && t.microsecond == fraction_of_text(
            s,
        ),
{
    if time_of_text(s) is Some {
        lemma_pow10_values();
        if s.len() == 13 {
            assert forall|i: int| 7 <= i < 13 implies is_digit(#[trigger] s[i]) by {
                assert(s[i] == s.skip(7)[i - 7]);
            }
            lemma_field_bound(s, 7, 6);
        }
    }
}

/// A day and time read from text are well formed.
pub proof fn lemma_datetime_of_text_wf(s: Seq<char>)
    ensures
        datetime_of_text(s) matches Some(v) ==> v.wf(),
{
    if datetime_of_text(s) is Some {
        lemma_date_of_text_wf(s.take(8));
        lemma_time_of_text_wf(s.skip(8));
    }
}

fn all_digits_between(chars: &Vec<char>, from: usize, to: usize) -> (res: bool)
    requires
        from <= to <= chars@.len(),
    ensures
        res == all_digits(chars@.subrange(from as int, to as int)),
{
    let ghost part = chars@.subrange(from as int, to as int);
    let mut i: usize = from;
    while i < to
        invariant
            from <= i <= to <= chars@.len(),
            part == chars@.subrange(from as int, to as int),
            forall|j: int| 0 <= j < i - from ==> is_digit(#[trigger] part[j]),
        decreases to - i,
    {
        if !char_is_digit(chars[i]) {
            assert(!is_digit(part[i - from]));
            return false;
        }
        i = i + 1;
    }
    true
}

/// Tells whether `chars` is `n` digits, alone or followed by a point and six digits more.
pub fn is_stamp(chars: &Vec<char>, n: usize) -> (res: bool)
    ensures
        res == is_stamp_text(chars@, n as int),
{
    let len = chars.len();
    if len == n {
        assert(chars@.subrange(0, n as int) =~= chars@);
        all_digits_between(chars, 0, n)
    } else if len >= 7 && len - 7 == n {
        all_digits_between(chars, 0, n) && chars[n] == '.' && all_digits_between(
            chars,
            n + 1,
            len,
        )
    } else {
        false
    }
}

fn date_from_fields(raw: (i32, u32, u32)) -> (res: DicomDate)
    ensures
        forall|d: DicomDate| raw == date_fields(d) ==> res == d,
{
    DicomDate { year: raw.0 as u16, month: raw.1 as u8, day: raw.2 as u8 }
}

fn time_from_leap_encoding(raw: (u32, u32, u32, u32)) -> (res: DicomTime)
    ensures
        forall|t: DicomTime| t.wf() && raw == leap_encoding(t) ==> res == t,
{
    let leap = raw.3 >= 1_000_000_000;
    let nanos: u32 = if leap {
        raw.3 - 1_000_000_000
    } else {
        raw.3
    };
    let second: u8 = if leap {
        60
    } else {
        raw.2 as u8
    };
    DicomTime { hour: raw.0 as u8, minute: raw.1 as u8, second, microsecond: nanos / 1000 }
}

/// Reads a date written as `YYYYMMDD`.
pub fn date_from_text(text: &str) -> (res: Option<DicomDate>)
    ensures
        res == date_of_text(text@),
        res matches Some(d) ==> d.wf(),
{
    let chars = to_chars(text);
    proof {
        lemma_date_of_text_wf(text@);
    }
    if chars.len() != 8 || !is_stamp(&chars, 8) {
        return None;
    }
    match parse_date(text) {
        Some(raw) => Some(date_from_fields(raw)),
        None => None,
    }
}

/// Reads a time of day written as `HHMMSS` or `HHMMSS.ffffff`.
pub fn time_from_text(text: &str) -> (res: Option<DicomTime>)
    ensures
        res == time_of_text(text@),
        res matches Some(t) ==> t.wf(),
{
    let chars = to_chars(text);
    proof {
        lemma_time_of_text_wf(text@);
    }
    if !is_stamp(&chars, 6) {
        return None;
    }
    match parse_time(text) {
        Some(raw) => Some(time_from_leap_encoding(raw)),
        None => None,
    }
}

/// Reads a day and time written as `YYYYMMDDHHMMSS` or `YYYYMMDDHHMMSS.ffffff`.
pub fn datetime_from_text(text: &str) -> (res: Option<DicomDateTime>)
    ensures
        res == datetime_of_text(text@),
        res matches Some(v) ==> v.wf(),
{
    let chars = to_chars(text);
    proof {
        lemma_datetime_of_text_wf(text@);
    }
    if !is_stamp(&chars, 14) {
        return None;
    }
    match parse_datetime(text) {
        Some(raw) => Some(
            DicomDateTime { date: date_from_fields(raw.0), time: time_from_leap_encoding(raw.1) },
        ),
        None => None,
    }
}

/// The last `width` digits of `n`, with leading zeros where `n` has fewer.
pub open spec fn padded(n: nat, width: nat) -> Seq<char>
    decreases width,
{
    if width == 0 {
        Seq::empty()
    } else {
        padded(n / 10, (width - 1) as nat).push(digit_char((n % 10) as int))
    }
}

/// The text of a date: `YYYYMMDD`.
pub open spec fn date_text(d: DicomDate) -> Seq<char> {
    padded(d.year as nat, 4) + padded(d.month as nat, 2) + padded(d.day as nat, 2)
}

/// The text of a time: `HHMMSS`, and `.ffffff` where the fraction is not zero.
pub open spec fn time_text(t: DicomTime) -> Seq<char> {
    let whole = padded(t.hour as nat, 2) + padded(t.minute as nat, 2) + padded(
        t.second as nat,
        2,
    );
    if t.microsecond == 0 {
        whole
    } else {
        whole + seq!['.'] + padded(t.microsecond as nat, 6)
    }
}

/// The text of a day and time: that of the day, then that of the time.
pub open spec fn datetime_text(v: DicomDateTime) -> Seq<char> {
    date_text(v.date) + time_text(v.time)
}

/// A number below ten to the power `width`, padded to that width, is a run of
/// `width` digits that stands for the number.
pub proof fn lemma_padded(n: nat, width: nat)
    requires
        n < pow10(width),
    ensures
        padded(n, width).len() == width,
        all_digits(padded(n, width)),
        digits_value(padded(n, width)) == n,
    decreases width,
{
    if width > 0 {
        lemma_padded(n / 10, (width - 1) as nat);
        let s = padded(n, width);
        assert(s.drop_last() =~= padded(n / 10, (width - 1) as nat));
    }
}

/// A run of digits, read as a number and padded to its own length, is the run again.
pub proof fn lemma_padded_of_digits(s: Seq<char>)
    requires
        all_digits(s),
    ensures
        padded(digits_value(s) as nat, s.len()) == s,
    decreases s.len(),
{
    if s.len() > 0 {
        let init = s.drop_last();
        lemma_padded_of_digits(init);
        lemma_digits_value_bound(init);
    }
}

/// Writing a date and reading the text back gives the date again.
pub proof fn lemma_date_round_trip(d: DicomDate)
    requires
        d.wf(),
    ensures
        date_of_text(date_text(d)) == Some(d),
{
    lemma_pow10_values();
    let y = padded(d.year as nat, 4);
    let m = padded(d.month as nat, 2);
    let dd = padded(d.day as nat, 2);
    lemma_padded(d.year as nat, 4);
    lemma_padded(d.month as nat, 2);
    lemma_padded(d.day as nat, 2);
    let s = date_text(d);
    assert(s.subrange(0, 4) =~= y);
    assert(s.subrange(4, 6) =~= m);
    assert(s.subrange(6, 8) =~= dd);
}

/// Reading a date and writing it gives the text that was read.
pub proof fn lemma_date_text_round_trip(s: Seq<char>)
    requires
        date_of_text(s) is Some,
    ensures
        date_text(date_of_text(s)->0) == s,
{
    lemma_date_of_text_wf(s);
    lemma_padded_of_digits(s.subrange(0, 4));
    lemma_padded_of_digits(s.subrange(4, 6));
    lemma_padded_of_digits(s.subrange(6, 8));
}

/// Writing a time and reading the text back gives the time again.
pub proof fn lemma_time_round_trip(t: DicomTime)
    requires
        t.wf(),
    ensures
        time_of_text(time_text(t)) == Some(t),
{
    lemma_pow10_values();
    let h = padded(t.hour as nat, 2);
    let m = padded(t.minute as nat, 2);
    let sec = padded(t.second as nat, 2);
    let f = padded(t.microsecond as nat, 6);
    lemma_padded(t.hour as nat, 2);
    lemma_padded(t.minute as nat, 2);
    lemma_padded(t.second as nat, 2);
    lemma_padded(t.microsecond as nat, 6);
    let s = time_text(t);
    assert(s.subrange(0, 2) =~= h);
    assert(s.subrange(2, 4) =~= m);
    assert(s.subrange(4, 6) =~= sec);
    if t.microsecond != 0 {
        assert(s.skip(7) =~= f);
    }
}

/// Writing a day and time and reading the text back gives them again.
pub proof fn lemma_datetime_round_trip(v: DicomDateTime)
    requires
        v.wf(),
    ensures
        datetime_of_text(datetime_text(v)) == Some(v),
{
    lemma_date_round_trip(v.date);
    lemma_time_round_trip(v.time);
    let d = date_text(v.date);
    let t = time_text(v.time);
    let s = datetime_text(v);
    assert(s.take(8) =~= d);
    assert(s.skip(8) =~= t);
    assert(is_stamp_text(s, 14)) by {
        if t.len() != 6 {
            assert forall|i: int| 0 <= i < 14 implies is_digit(#[trigger] s.take(14)[i]) by {
                if i >= 8 {
                    assert(s[i] == t.take(6)[i - 8]);
                }
            }
            assert(s.skip(15) =~= t.skip(7));
        }
    }
}

/// Appends the last `width` digits of `n` to `out`, with leading zeros.
pub fn push_padded(out: &mut String, n: u32, width: u32)
    ensures
        final(out)@ == old(out)@ + padded(n as nat, width as nat),
    decreases width,
{
    if width != 0 {
        push_padded(out, n / 10, width - 1);
        push_char(out, (48u8 + (n % 10) as u8) as char);
    }
}

impl DicomDate {
    /// Appends the text of this date to `out`.
    pub fn push_text(&self, out: &mut String)
        ensures
            final(out)@ == old(out)@ + date_text(*self),
    {
        push_padded(out, self.year as u32, 4);
        push_padded(out, self.month as u32, 2);
        push_padded(out, self.day as u32, 2);
    }

    /// The text of this date.
    pub fn to_string(&self) -> (res: String)
        ensures
            res@ == date_text(*self),
    {
        let mut out = String::new();
        self.push_text(&mut out);
        out
    }
}

impl DicomTime {
    /// Appends the text of this time to `out`.
    pub fn push_text(&self, out: &mut String)
        ensures
            final(out)@ == old(out)@ + time_text(*self),
    {
        push_padded(out, self.hour as u32, 2);
        push_padded(out, self.minute as u32, 2);
        push_padded(out, self.second as u32, 2);
        if self.microsecond != 0 {
            push_char(out, '.');
            push_padded(out, self.microsecond, 6);
        }
    }

    /// The text of this time.
    pub fn to_string(&self) -> (res: String)
        ensures
            res@ == time_text(*self),
    {
        let mut out = String::new();
        self.push_text(&mut out);
        out
    }
}

impl DicomDateTime {
    /// Appends the text of this day and time to `out`.
    pub fn push_text(&self, out: &mut String)
        ensures
            final(out)@ == old(out)@ + datetime_text(*self),
    {
        self.date.push_text(out);
        self.time.push_text(out);
    }

    /// The text of this day and time.
    pub fn to_string(&self) -> (res: String)
        ensures
            res@ == datetime_text(*self),
    {
        let mut out = String::new();
        self.push_text(&mut out);
        out
    }
}

} // verus!
