//! Typed values and the attributes that hold them.

use std::rc::Rc;
use vstd::prelude::*;
use vstd::string::*;
use vstd::utf8::encode_utf8;
use crate::decimal::{
    all_decimal, decimal_from_text, decimals_from_text, is_decimal_literal, texts_of,
};
use crate::error::{DicomError, SyntaxErrorKind};
use crate::kind::{kind_of_name, VrClass, VrKind};
use crate::number::{
    hex_padded, integer_text, parse_integer, parse_integer_text, parse_integer_words,
    parse_integers_text, push_hex, push_integer,
};
use crate::registry::{AttributeMetadata, TagRegistry};
use crate::temporal::{
    date_from_text, date_of_text, date_text, datetime_from_text, datetime_of_text, datetime_text,
    time_from_text, time_of_text, time_text, DicomDate, DicomDateTime, DicomTime,
};
use crate::text::{join_words, push_char, string_of_bytes, text_of_bytes, words};

verus! {

/// A value, tagged with its kind of value representation.
///
/// The kind of a value is fixed when it is made: [`VisualRepresentation::set`]
/// replaces what the value holds and never its kind.
#[derive(Debug, Clone, PartialEq, Eq)]
pub enum VisualRepresentation {
    /// Application Entity
    AE(String),
    /// Age String
    AS(String),
    /// Attribute Tag
    AT(String),
    /// Code String
    CS(String),
    /// Date
    DA(DicomDate),
    /// Decimal String
    DS(String),
    /// Date Time
    DT(DicomDateTime),
    /// Floating Point Single, as its decimal literal
    FL(String),
    /// Floating Point Double, as its decimal literal
    FD(String),
    /// Integer String
    IS(String),
    /// Long String
    LO(String),
    /// Long Text
    LT(String),
    /// Other Byte
    OB(Vec<u8>),
    /// Other Double, as decimal literals
    OD(Vec<String>),
    /// Other Float, as decimal literals
    OF(Vec<String>),
    /// Other Long
    OL(Vec<u32>),
    /// Other Very Long
    OV(Vec<i64>),
    /// Other Word
    OW(Vec<u16>),
    /// Person Name
    PN(String),
    /// Short String
    SH(String),
    /// Signed Long
    SL(i32),
    /// Sequence of Items
    SQ(Vec<Rc<Attribute>>),
    /// Signed Short
    SS(i16),
    /// Short Text
    ST(String),
    /// Signed Very Long
    SV(i64),
    /// Time
    TM(DicomTime),
    /// Unlimited Characters
    UC(String),
    /// Unique Identifier
    UI(String),
    /// Unsigned Long
    UL(u32),
    /// Unknown
    UN(Vec<u8>),
    /// Universal Resource Identifier
    UR(String),
    /// Unsigned Short
    US(u16),
    /// Unlimited Text
    UT(String),
}

/// A data element: a tag, what the registry says of it, and its value.
///
/// Only the value can change after the attribute is made.
#[derive(Debug, Clone, PartialEq, Eq)]
pub struct Attribute {
    group: u16,
    element: u16,
    name: String,
    multiplicity: String,
    is_deprecated: bool,
    vr_value: VisualRepresentation,
}

/// What an attribute holds, as plain values.
pub struct AttributeView {
    pub tag: (u16, u16),
    pub name: Seq<char>,
    pub multiplicity: Seq<char>,
    pub is_deprecated: bool,
    pub value: VisualRepresentation,
}

/// What a value holds, by the class of its kind.
pub enum Payload {
    /// The text of a text kind, or the literal of a decimal kind.
    Text(Seq<char>),
    /// The literals of a kind that holds several decimals.
    Texts(Seq<Seq<char>>),
    /// The number of an integer kind.
    Integer(int),
    /// The numbers of a kind that holds several integers.
    Integers(Seq<int>),
    /// The bytes of a blob kind.
    Bytes(Seq<u8>),
    Date(DicomDate),
    Time(DicomTime),
    DateTime(DicomDateTime),
    /// The nested attributes of a sequence.
    Items(Seq<Rc<Attribute>>),
}

/// A new value for [`VisualRepresentation::set`].
#[derive(Debug, Clone)]
pub enum DicomValue<'a> {
    /// A text, to be read by the rule of the value's kind.
    String(&'a str),
    /// One attribute.
    Object(Rc<Attribute>),
    /// The items of a sequence.
    ObjectVec(Vec<Rc<Attribute>>),
}

/// Another handle to the attribute behind `handle`, through `Rc::clone`.
#[verifier::external_body]
fn share(handle: &Rc<Attribute>) -> (res: Rc<Attribute>)
    ensures
        res == *handle,
{
    Rc::clone(handle)
}

/// The payload that the text stands for as a value of the given kind, where
/// it stands for one. Text kinds keep the text; decimal kinds keep a decimal
/// literal; integer kinds read a number that fits their width; the kinds that
/// hold several numbers read one in each word; blob kinds take the bytes of
/// the text; temporal kinds read their fixed-width form; a sequence starts empty.
pub open spec fn parse_payload(kind: VrKind, text: Seq<char>) -> Option<Payload> {
    match kind.class() {
        VrClass::Text => Some(Payload::Text(text)),
        VrClass::Decimal => if is_decimal_literal(text) {
            Some(Payload::Text(text))
        } else {
            None
        },
        VrClass::Decimals => if all_decimal(words(text)) {
            Some(Payload::Texts(words(text)))
        } else {
            None
        },
        VrClass::Integer => match parse_integer(
            text,
            kind.is_signed(),
            kind.min_value(),
            kind.max_value(),
        ) {
            Some(v) => Some(Payload::Integer(v)),
            None => None,
        },
        VrClass::Integers => match parse_integer_words(
            words(text),
            kind.is_signed(),
            kind.min_value(),
            kind.max_value(),
        ) {
            Some(vs) => Some(Payload::Integers(vs)),
            None => None,
        },
        VrClass::Bytes => Some(Payload::Bytes(encode_utf8(text))),
        VrClass::Date => match date_of_text(text) {
            Some(d) => Some(Payload::Date(d)),
            None => None,
        },
        VrClass::Time => match time_of_text(text) {
            Some(t) => Some(Payload::Time(t)),
            None => None,
        },
        VrClass::DateTime => match datetime_of_text(text) {
            Some(v) => Some(Payload::DateTime(v)),
            None => None,
        },
        VrClass::Items => Some(Payload::Items(Seq::empty())),
    }
}

/// Whether `e` is the error for a text that does not stand for a value of
/// the given kind: a syntax error for the temporal kinds, an invalid value
/// for the others, each with the text that was refused.
pub open spec fn is_parse_error(kind: VrKind, text: Seq<char>, e: DicomError) -> bool {
    match kind.class() {
        VrClass::Date => e matches DicomError::SyntaxError(SyntaxErrorKind::InvalidDate(m)) && m@
            == text,
        VrClass::Time => e matches DicomError::SyntaxError(SyntaxErrorKind::InvalidTime(m)) && m@
            == text,
        VrClass::DateTime => e matches DicomError::SyntaxError(
            SyntaxErrorKind::InvalidDateTime(m),
        ) && m@ == text,
        _ => e matches DicomError::InvalidValue(m) && m@ == text,
    }
}

/// The payload of a fresh value of the given kind: empty text, the literal
/// `0`, the number zero, nothing at all, the first day of 1970, midnight.
pub open spec fn default_payload(kind: VrKind) -> Payload {
    match kind.class() {
        VrClass::Text => Payload::Text(Seq::empty()),
        VrClass::Decimal => Payload::Text(seq!['0']),
        VrClass::Decimals => Payload::Texts(Seq::empty()),
        VrClass::Integer => Payload::Integer(0),
        VrClass::Integers => Payload::Integers(Seq::empty()),
        VrClass::Bytes => Payload::Bytes(Seq::empty()),
        VrClass::Date => Payload::Date(DicomDate { year: 1970, month: 1, day: 1 }),
        VrClass::Time => Payload::Time(DicomTime { hour: 0, minute: 0, second: 0, microsecond: 0 }),
        VrClass::DateTime => Payload::DateTime(
            DicomDateTime {
                date: DicomDate { year: 1970, month: 1, day: 1 },
                time: DicomTime { hour: 0, minute: 0, second: 0, microsecond: 0 },
            },
        ),
        VrClass::Items => Payload::Items(Seq::empty()),
    }
}

/// Whether a payload is one that a value of the given kind can hold.
pub open spec fn payload_fits(kind: VrKind, p: Payload) -> bool {
    match (kind.class(), p) {
        (VrClass::Text, Payload::Text(_)) => true,
        (VrClass::Decimal, Payload::Text(t)) => is_decimal_literal(t),
        (VrClass::Decimals, Payload::Texts(ts)) => all_decimal(ts),
        (VrClass::Integer, Payload::Integer(v)) => kind.min_value() <= v <= kind.max_value(),
        (VrClass::Integers, Payload::Integers(vs)) => forall|i: int|
            0 <= i < vs.len() ==> kind.min_value() <= #[trigger] vs[i] <= kind.max_value(),
        (VrClass::Bytes, Payload::Bytes(_)) => true,
        (VrClass::Date, Payload::Date(d)) => d.wf(),
        (VrClass::Time, Payload::Time(t)) => t.wf(),
        (VrClass::DateTime, Payload::DateTime(v)) => v.wf(),
        (VrClass::Items, Payload::Items(_)) => true,
        _ => false,
    }
}

/// The texts of the integers `vs`, in order.
pub open spec fn integer_texts(vs: Seq<int>) -> Seq<Seq<char>> {
    Seq::new(vs.len(), |i: int| integer_text(vs[i]))
}

/// The text of a payload that holds no nested attributes.
pub open spec fn flat_text(p: Payload) -> Seq<char> {
    match p {
        Payload::Text(t) => t,
        Payload::Texts(ts) => join_words(ts),
        Payload::Integer(v) => integer_text(v),
        Payload::Integers(vs) => join_words(integer_texts(vs)),
        Payload::Bytes(b) => text_of_bytes(b),
        Payload::Date(d) => date_text(d),
        Payload::Time(t) => time_text(t),
        Payload::DateTime(v) => datetime_text(v),
        Payload::Items(_) => Seq::empty(),
    }
}

/// The text before an attribute's value: `(GGGG,EEEE) VR name: `, the tag in
/// hexadecimal digits.
pub open spec fn header_text(tag: (u16, u16), kind: VrKind, name: Seq<char>) -> Seq<char> {
    seq!['('] + hex_padded(tag.0 as nat, 4) + seq![','] + hex_padded(tag.1 as nat, 4) + seq![
        ')',
        ' ',
    ] + kind.code() + seq![' '] + name + seq![':', ' ']
}

/// The texts of the attributes `items`, one after the other.
pub open spec fn items_text(items: Seq<Rc<Attribute>>) -> Seq<char>
    decreases items,
{
    if items.len() == 0 {
        Seq::empty()
    } else {
        items_text(items.drop_last()) + items.last().text()
    }
}

impl View for Attribute {
    type V = AttributeView;

    closed spec fn view(&self) -> AttributeView {
        AttributeView {
            tag: (self.group, self.element),
            name: self.name@,
            multiplicity: self.multiplicity@,
            is_deprecated: self.is_deprecated,
            value: self.vr_value,
        }
    }
}

impl Attribute {
    /// The text of this attribute: its header, the text of its value, and a line end.
    pub open spec fn text(&self) -> Seq<char>
        decreases self,
    {
        header_text(self@.tag, self@.value.kind(), self@.name) + self@.value.text() + seq!['\n']
    }
}

impl VisualRepresentation {
    /// The kind of this value.
    pub open spec fn kind(&self) -> VrKind {
        match self {
            VisualRepresentation::AE(_) => VrKind::AE,
            VisualRepresentation::AS(_) => VrKind::AS,
            VisualRepresentation::AT(_) => VrKind::AT,
            VisualRepresentation::CS(_) => VrKind::CS,
            VisualRepresentation::DA(_) => VrKind::DA,
            VisualRepresentation::DS(_) => VrKind::DS,
            VisualRepresentation::DT(_) => VrKind::DT,
            VisualRepresentation::FL(_) => VrKind::FL,
            VisualRepresentation::FD(_) => VrKind::FD,
            VisualRepresentation::IS(_) => VrKind::IS,
            VisualRepresentation::LO(_) => VrKind::LO,
            VisualRepresentation::LT(_) => VrKind::LT,
            VisualRepresentation::OB(_) => VrKind::OB,
            VisualRepresentation::OD(_) => VrKind::OD,
            VisualRepresentation::OF(_) => VrKind::OF,
            VisualRepresentation::OL(_) => VrKind::OL,
            VisualRepresentation::OV(_) => VrKind::OV,
            VisualRepresentation::OW(_) => VrKind::OW,
            VisualRepresentation::PN(_) => VrKind::PN,
            VisualRepresentation::SH(_) => VrKind::SH,
            VisualRepresentation::SL(_) => VrKind::SL,
            VisualRepresentation::SQ(_) => VrKind::SQ,
            VisualRepresentation::SS(_) => VrKind::SS,
            VisualRepresentation::ST(_) => VrKind::ST,
            VisualRepresentation::SV(_) => VrKind::SV,
            VisualRepresentation::TM(_) => VrKind::TM,
            VisualRepresentation::UC(_) => VrKind::UC,
            VisualRepresentation::UI(_) => VrKind::UI,
            VisualRepresentation::UL(_) => VrKind::UL,
            VisualRepresentation::UN(_) => VrKind::UN,
            VisualRepresentation::UR(_) => VrKind::UR,
            VisualRepresentation::US(_) => VrKind::US,
            VisualRepresentation::UT(_) => VrKind::UT,
        }
    }

    /// What this value holds.
    pub open spec fn payload(&self) -> Payload {
        match self {
            VisualRepresentation::AE(v) => Payload::Text(v@),
            VisualRepresentation::AS(v) => Payload::Text(v@),
            VisualRepresentation::AT(v) => Payload::Text(v@),
            VisualRepresentation::CS(v) => Payload::Text(v@),
            VisualRepresentation::DA(v) => Payload::Date(*v),
            VisualRepresentation::DS(v) => Payload::Text(v@),
            VisualRepresentation::DT(v) => Payload::DateTime(*v),
            VisualRepresentation::FL(v) => Payload::Text(v@),
            VisualRepresentation::FD(v) => Payload::Text(v@),
            VisualRepresentation::IS(v) => Payload::Text(v@),
            VisualRepresentation::LO(v) => Payload::Text(v@),
            VisualRepresentation::LT(v) => Payload::Text(v@),
            VisualRepresentation::OB(v) => Payload::Bytes(v@),
            VisualRepresentation::OD(v) => Payload::Texts(texts_of(v@)),
            VisualRepresentation::OF(v) => Payload::Texts(texts_of(v@)),
            VisualRepresentation::OL(v) => Payload::Integers(Seq::new(v@.len(), |i: int| v@[i] as int)),
            VisualRepresentation::OV(v) => Payload::Integers(Seq::new(v@.len(), |i: int| v@[i] as int)),
            VisualRepresentation::OW(v) => Payload::Integers(Seq::new(v@.len(), |i: int| v@[i] as int)),
            VisualRepresentation::PN(v) => Payload::Text(v@),
            VisualRepresentation::SH(v) => Payload::Text(v@),
            VisualRepresentation::SL(v) => Payload::Integer(*v as int),
            VisualRepresentation::SQ(v) => Payload::Items(v@),
            VisualRepresentation::SS(v) => Payload::Integer(*v as int),
            VisualRepresentation::ST(v) => Payload::Text(v@),
            VisualRepresentation::SV(v) => Payload::Integer(*v as int),
            VisualRepresentation::TM(v) => Payload::Time(*v),
            VisualRepresentation::UC(v) => Payload::Text(v@),
            VisualRepresentation::UI(v) => Payload::Text(v@),
            VisualRepresentation::UL(v) => Payload::Integer(*v as int),
            VisualRepresentation::UN(v) => Payload::Bytes(v@),
            VisualRepresentation::UR(v) => Payload::Text(v@),
            VisualRepresentation::US(v) => Payload::Integer(*v as int),
            VisualRepresentation::UT(v) => Payload::Text(v@),
        }
    }

    /// Whether what this value holds is valid for its kind.
    pub open spec fn wf(&self) -> bool {
        payload_fits(self.kind(), self.payload())
    }

    /// The text of this value. A sequence writes its items one after the other.
    pub open spec fn text(&self) -> Seq<char>
        decreases self,
    {
        match self {
            VisualRepresentation::SQ(items) => items_text(items@),
            _ => flat_text(self.payload()),
        }
    }
}

fn zero_literal() -> (res: String)
    ensures
        res@ == seq!['0'],
{
    let mut out = String::new();
    push_char(&mut out, '0');
    out
}

fn epoch_date() -> (res: DicomDate)
    ensures
        res == (DicomDate { year: 1970, month: 1, day: 1 }),
{
    DicomDate { year: 1970, month: 1, day: 1 }
}

fn midnight() -> (res: DicomTime)
    ensures
        res == (DicomTime { hour: 0, minute: 0, second: 0, microsecond: 0 }),
{
    DicomTime { hour: 0, minute: 0, second: 0, microsecond: 0 }
}

fn narrow_to_u32(v: &Vec<i64>) -> (res: Vec<u32>)
    requires
        forall|i: int| 0 <= i < v@.len() ==> 0 <= #[trigger] v@[i] <= u32::MAX,
    ensures
        Seq::new(res@.len(), |i: int| res@[i] as int) == Seq::new(
            v@.len(),
            |i: int| v@[i] as int,
        ),
{
    let mut out: Vec<u32> = Vec::new();
    let mut k: usize = 0;
    while k < v.len()
        invariant
            k <= v@.len(),
            out@.len() == k,
            forall|i: int| 0 <= i < v@.len() ==> 0 <= #[trigger] v@[i] <= u32::MAX,
            forall|i: int| 0 <= i < k ==> #[trigger] out@[i] as int == v@[i] as int,
        decreases v@.len() - k,
    {
        out.push(v[k] as u32);
        k = k + 1;
    }
    assert(Seq::new(out@.len(), |i: int| out@[i] as int) =~= Seq::new(
        v@.len(),
        |i: int| v@[i] as int,
    ));
    out
}

fn narrow_to_u16(v: &Vec<i64>) -> (res: Vec<u16>)
    requires
        forall|i: int| 0 <= i < v@.len() ==> 0 <= #[trigger] v@[i] <= u16::MAX,
    ensures
        Seq::new(res@.len(), |i: int| res@[i] as int) == Seq::new(
            v@.len(),
            |i: int| v@[i] as int,
        ),
{
    let mut out: Vec<u16> = Vec::new();
    let mut k: usize = 0;
    while k < v.len()
        invariant
            k <= v@.len(),
            out@.len() == k,
            forall|i: int| 0 <= i < v@.len() ==> 0 <= #[trigger] v@[i] <= u16::MAX,
            forall|i: int| 0 <= i < k ==> #[trigger] out@[i] as int == v@[i] as int,
        decreases v@.len() - k,
    {
        out.push(v[k] as u16);
        k = k + 1;
    }
    assert(Seq::new(out@.len(), |i: int| out@[i] as int) =~= Seq::new(
        v@.len(),
        |i: int| v@[i] as int,
    ));
    out
}

impl VisualRepresentation {
    /// The kind of this value.
    pub fn get_kind(&self) -> (res: VrKind)
        ensures
            res == self.kind(),
    {
        match self {
            VisualRepresentation::AE(_) => VrKind::AE,
            VisualRepresentation::AS(_) => VrKind::AS,
            VisualRepresentation::AT(_) => VrKind::AT,
            VisualRepresentation::CS(_) => VrKind::CS,
            VisualRepresentation::DA(_) => VrKind::DA,
            VisualRepresentation::DS(_) => VrKind::DS,
            VisualRepresentation::DT(_) => VrKind::DT,
            VisualRepresentation::FL(_) => VrKind::FL,
            VisualRepresentation::FD(_) => VrKind::FD,
            VisualRepresentation::IS(_) => VrKind::IS,
            VisualRepresentation::LO(_) => VrKind::LO,
            VisualRepresentation::LT(_) => VrKind::LT,
            VisualRepresentation::OB(_) => VrKind::OB,
            VisualRepresentation::OD(_) => VrKind::OD,
            VisualRepresentation::OF(_) => VrKind::OF,
            VisualRepresentation::OL(_) => VrKind::OL,
            VisualRepresentation::OV(_) => VrKind::OV,
            VisualRepresentation::OW(_) => VrKind::OW,
            VisualRepresentation::PN(_) => VrKind::PN,
            VisualRepresentation::SH(_) => VrKind::SH,
            VisualRepresentation::SL(_) => VrKind::SL,
            VisualRepresentation::SQ(_) => VrKind::SQ,
            VisualRepresentation::SS(_) => VrKind::SS,
            VisualRepresentation::ST(_) => VrKind::ST,
            VisualRepresentation::SV(_) => VrKind::SV,
            VisualRepresentation::TM(_) => VrKind::TM,
            VisualRepresentation::UC(_) => VrKind::UC,
            VisualRepresentation::UI(_) => VrKind::UI,
            VisualRepresentation::UL(_) => VrKind::UL,
            VisualRepresentation::UN(_) => VrKind::UN,
            VisualRepresentation::UR(_) => VrKind::UR,
            VisualRepresentation::US(_) => VrKind::US,
            VisualRepresentation::UT(_) => VrKind::UT,
        }
    }

    /// A fresh value of the given kind.
    pub fn of_kind(kind: VrKind) -> (res: VisualRepresentation)
        ensures
            res.kind() == kind,
            res.payload() == default_payload(kind),
            res.wf(),
    {
        let res = match kind {
            VrKind::AE => VisualRepresentation::AE(String::new()),
            VrKind::AS => VisualRepresentation::AS(String::new()),
            VrKind::AT => VisualRepresentation::AT(String::new()),
            VrKind::CS => VisualRepresentation::CS(String::new()),
            VrKind::DA => VisualRepresentation::DA(epoch_date()),
            VrKind::DS => VisualRepresentation::DS(String::new()),
            VrKind::DT => VisualRepresentation::DT(DicomDateTime { date: epoch_date(), time: midnight() }),
            VrKind::FL => VisualRepresentation::FL(zero_literal()),
            VrKind::FD => VisualRepresentation::FD(zero_literal()),
            VrKind::IS => VisualRepresentation::IS(String::new()),
            VrKind::LO => VisualRepresentation::LO(String::new()),
            VrKind::LT => VisualRepresentation::LT(String::new()),
            VrKind::OB => VisualRepresentation::OB(Vec::new()),
            VrKind::OD => VisualRepresentation::OD(Vec::new()),
            VrKind::OF => VisualRepresentation::OF(Vec::new()),
            VrKind::OL => VisualRepresentation::OL(Vec::new()),
            VrKind::OV => VisualRepresentation::OV(Vec::new()),
            VrKind::OW => VisualRepresentation::OW(Vec::new()),
            VrKind::PN => VisualRepresentation::PN(String::new()),
            VrKind::SH => VisualRepresentation::SH(String::new()),
            VrKind::SL => VisualRepresentation::SL(0),
            VrKind::SQ => VisualRepresentation::SQ(Vec::new()),
            VrKind::SS => VisualRepresentation::SS(0),
            VrKind::ST => VisualRepresentation::ST(String::new()),
            VrKind::SV => VisualRepresentation::SV(0),
            VrKind::TM => VisualRepresentation::TM(midnight()),
            VrKind::UC => VisualRepresentation::UC(String::new()),
            VrKind::UI => VisualRepresentation::UI(String::new()),
            VrKind::UL => VisualRepresentation::UL(0),
            VrKind::UN => VisualRepresentation::UN(Vec::new()),
            VrKind::UR => VisualRepresentation::UR(String::new()),
            VrKind::US => VisualRepresentation::US(0),
            VrKind::UT => VisualRepresentation::UT(String::new()),
        };
        proof {
            assert(texts_of(Seq::<String>::empty()) =~= Seq::<Seq<char>>::empty());
            assert(Seq::new(0, |i: int| Seq::<u32>::empty()[i] as int) =~= Seq::<int>::empty());
            assert(Seq::new(0, |i: int| Seq::<u16>::empty()[i] as int) =~= Seq::<int>::empty());
            assert(Seq::new(0, |i: int| Seq::<i64>::empty()[i] as int) =~= Seq::<int>::empty());
            lemma_zero_is_decimal();
        }
        res
    }

    /// A fresh value of the kind that `vr` names; of kind `UN` where it names none.
    pub fn new(vr: &str) -> (res: VisualRepresentation)
        ensures
            res.kind() == kind_of_name(vr@),
            res.payload() == default_payload(kind_of_name(vr@)),
            res.wf(),
    {
        Self::of_kind(VrKind::from_name(vr))
    }

    /// Reads `value` as a value of the given kind.
    pub fn parse(kind: VrKind, value: &str) -> (res: Result<VisualRepresentation, DicomError>)
        ensures
            match parse_payload(kind, value@) {
                Some(p) => res matches Ok(v) && v.kind() == kind && v.payload() == p && v.wf(),
                None => res matches Err(e) && is_parse_error(kind, value@, e),
            },
    {
        match kind {
            VrKind::AE => Ok(VisualRepresentation::AE(value.to_owned())),
            VrKind::AS => Ok(VisualRepresentation::AS(value.to_owned())),
            VrKind::AT => Ok(VisualRepresentation::AT(value.to_owned())),
            VrKind::CS => Ok(VisualRepresentation::CS(value.to_owned())),
            VrKind::DA => match date_from_text(value) {
                Some(v) => Ok(VisualRepresentation::DA(v)),
                None => Err(DicomError::SyntaxError(SyntaxErrorKind::InvalidDate(value.to_owned()))),
            },
            VrKind::DS => Ok(VisualRepresentation::DS(value.to_owned())),
            VrKind::DT => match datetime_from_text(value) {
                Some(v) => Ok(VisualRepresentation::DT(v)),
                None => Err(
                    DicomError::SyntaxError(SyntaxErrorKind::InvalidDateTime(value.to_owned())),
                ),
            },
            VrKind::FL => match decimal_from_text(value) {
                Some(v) => Ok(VisualRepresentation::FL(v)),
                None => Err(DicomError::InvalidValue(value.to_owned())),
            },
            VrKind::FD => match decimal_from_text(value) {
                Some(v) => Ok(VisualRepresentation::FD(v)),
                None => Err(DicomError::InvalidValue(value.to_owned())),
            },
            VrKind::IS => Ok(VisualRepresentation::IS(value.to_owned())),
            VrKind::LO => Ok(VisualRepresentation::LO(value.to_owned())),
            VrKind::LT => Ok(VisualRepresentation::LT(value.to_owned())),
            VrKind::OB => Ok(VisualRepresentation::OB(value.as_bytes_vec())),
            VrKind::OD => match decimals_from_text(value) {
                Some(v) => Ok(VisualRepresentation::OD(v)),
                None => Err(DicomError::InvalidValue(value.to_owned())),
            },
            VrKind::OF => match decimals_from_text(value) {
                Some(v) => Ok(VisualRepresentation::OF(v)),
                None => Err(DicomError::InvalidValue(value.to_owned())),
            },
            VrKind::OL => match parse_integers_text(value, false, u32::MIN as i64, u32::MAX as i64) {
                Some(v) => Ok(VisualRepresentation::OL(narrow_to_u32(&v))),
                None => Err(DicomError::InvalidValue(value.to_owned())),
            },
            VrKind::OV => match parse_integers_text(value, true, i64::MIN as i64, i64::MAX as i64) {
                Some(v) => Ok(VisualRepresentation::OV(v)),
                None => Err(DicomError::InvalidValue(value.to_owned())),
            },
            VrKind::OW => match parse_integers_text(value, false, u16::MIN as i64, u16::MAX as i64) {
                Some(v) => Ok(VisualRepresentation::OW(narrow_to_u16(&v))),
                None => Err(DicomError::InvalidValue(value.to_owned())),
            },
            VrKind::PN => Ok(VisualRepresentation::PN(value.to_owned())),
            VrKind::SH => Ok(VisualRepresentation::SH(value.to_owned())),
            VrKind::SL => match parse_integer_text(value, true, i32::MIN as i64, i32::MAX as i64) {
                Some(v) => Ok(VisualRepresentation::SL(v as i32)),
                None => Err(DicomError::InvalidValue(value.to_owned())),
            },
            VrKind::SQ => Ok(VisualRepresentation::SQ(Vec::new())),
            VrKind::SS => match parse_integer_text(value, true, i16::MIN as i64, i16::MAX as i64) {
                Some(v) => Ok(VisualRepresentation::SS(v as i16)),
                None => Err(DicomError::InvalidValue(value.to_owned())),
            },
            VrKind::ST => Ok(VisualRepresentation::ST(value.to_owned())),
            VrKind::SV => match parse_integer_text(value, true, i64::MIN as i64, i64::MAX as i64) {
                Some(v) => Ok(VisualRepresentation::SV(v as i64)),
                None => Err(DicomError::InvalidValue(value.to_owned())),
            },
            VrKind::TM => match time_from_text(value) {
                Some(v) => Ok(VisualRepresentation::TM(v)),
                None => Err(DicomError::SyntaxError(SyntaxErrorKind::InvalidTime(value.to_owned()))),
            },
            VrKind::UC => Ok(VisualRepresentation::UC(value.to_owned())),
            VrKind::UI => Ok(VisualRepresentation::UI(value.to_owned())),
            VrKind::UL => match parse_integer_text(value, false, u32::MIN as i64, u32::MAX as i64) {
                Some(v) => Ok(VisualRepresentation::UL(v as u32)),
                None => Err(DicomError::InvalidValue(value.to_owned())),
            },
            VrKind::UN => Ok(VisualRepresentation::UN(value.as_bytes_vec())),
            VrKind::UR => Ok(VisualRepresentation::UR(value.to_owned())),
            VrKind::US => match parse_integer_text(value, false, u16::MIN as i64, u16::MAX as i64) {
                Some(v) => Ok(VisualRepresentation::US(v as u16)),
                None => Err(DicomError::InvalidValue(value.to_owned())),
            },
            VrKind::UT => Ok(VisualRepresentation::UT(value.to_owned())),
        }
    }

    /// Reads `value` as a value of the kind that `vr` names; of kind `UN`
    /// where it names none.
    pub fn from_string(vr: &str, value: &str) -> (res: Result<VisualRepresentation, DicomError>)
        ensures
            match parse_payload(kind_of_name(vr@), value@) {
                Some(p) => res matches Ok(v) && v.kind() == kind_of_name(vr@) && v.payload() == p
                    && v.wf(),
                None => res matches Err(e) && is_parse_error(kind_of_name(vr@), value@, e),
            },
    {
        Self::parse(VrKind::from_name(vr), value)
    }
}

fn push_joined(out: &mut String, v: &Vec<String>)
    ensures
        final(out)@ == old(out)@ + join_words(texts_of(v@)),
{
    let ghost texts = texts_of(v@);
    let mut k: usize = 0;
    while k < v.len()
        invariant
            k <= v@.len(),
            texts == texts_of(v@),
            out@ == old(out)@ + join_words(texts.take(k as int)),
        decreases v@.len() - k,
    {
        if k > 0 {
            push_char(out, ' ');
        }
        out.append(v[k].as_str());
        proof {
            let next = texts.take(k + 1);
            assert(next.drop_last() =~= texts.take(k as int));
        }
        k = k + 1;
    }
    assert(texts.take(k as int) =~= texts);
}

fn push_joined_u32(out: &mut String, v: &Vec<u32>)
    ensures
        final(out)@ == old(out)@ + join_words(
            integer_texts(Seq::new(v@.len(), |i: int| v@[i] as int)),
        ),
{
    let ghost texts = integer_texts(Seq::new(v@.len(), |i: int| v@[i] as int));
    let mut k: usize = 0;
    while k < v.len()
        invariant
            k <= v@.len(),
            texts == integer_texts(Seq::new(v@.len(), |i: int| v@[i] as int)),
            out@ == old(out)@ + join_words(texts.take(k as int)),
        decreases v@.len() - k,
    {
        if k > 0 {
            push_char(out, ' ');
        }
        push_integer(out, v[k] as i64);
        proof {
            let next = texts.take(k + 1);
            assert(next.drop_last() =~= texts.take(k as int));
        }
        k = k + 1;
    }
    assert(texts.take(k as int) =~= texts);
}

fn push_joined_u16(out: &mut String, v: &Vec<u16>)
    ensures
        final(out)@ == old(out)@ + join_words(
            integer_texts(Seq::new(v@.len(), |i: int| v@[i] as int)),
        ),
{
    let ghost texts = integer_texts(Seq::new(v@.len(), |i: int| v@[i] as int));
    let mut k: usize = 0;
    while k < v.len()
        invariant
            k <= v@.len(),
            texts == integer_texts(Seq::new(v@.len(), |i: int| v@[i] as int)),
            out@ == old(out)@ + join_words(texts.take(k as int)),
        decreases v@.len() - k,
    {
        if k > 0 {
            push_char(out, ' ');
        }
        push_integer(out, v[k] as i64);
        proof {
            let next = texts.take(k + 1);
            assert(next.drop_last() =~= texts.take(k as int));
        }
        k = k + 1;
    }
    assert(texts.take(k as int) =~= texts);
}

fn push_joined_i64(out: &mut String, v: &Vec<i64>)
    ensures
        final(out)@ == old(out)@ + join_words(
            integer_texts(Seq::new(v@.len(), |i: int| v@[i] as int)),
        ),
{
    let ghost texts = integer_texts(Seq::new(v@.len(), |i: int| v@[i] as int));
    let mut k: usize = 0;
    while k < v.len()
        invariant
            k <= v@.len(),
            texts == integer_texts(Seq::new(v@.len(), |i: int| v@[i] as int)),
            out@ == old(out)@ + join_words(texts.take(k as int)),
        decreases v@.len() - k,
    {
        if k > 0 {
            push_char(out, ' ');
        }
        push_integer(out, v[k] as i64);
        proof {
            let next = texts.take(k + 1);
            assert(next.drop_last() =~= texts.take(k as int));
        }
        k = k + 1;
    }
    assert(texts.take(k as int) =~= texts);
}

fn push_items(out: &mut String, items: &Vec<Rc<Attribute>>)
    ensures
        final(out)@ == old(out)@ + items_text(items@),
    decreases items,
{
    let mut k: usize = 0;
    while k < items.len()
        invariant
            k <= items@.len(),
            out@ == old(out)@ + items_text(items@.take(k as int)),
        decreases items@.len() - k,
    {
        items[k].push_text(out);
        proof {
            let next = items@.take(k + 1);
            assert(next.drop_last() =~= items@.take(k as int));
        }
        k = k + 1;
    }
    assert(items@.take(k as int) =~= items@);
}

impl VisualRepresentation {
    /// Appends the text of this value to `out`.
    pub fn push_text(&self, out: &mut String)
        ensures
            final(out)@ == old(out)@ + self.text(),
        decreases self,
    {
        match self {
            VisualRepresentation::AE(v) => out.append(v.as_str()),
            VisualRepresentation::AS(v) => out.append(v.as_str()),
            VisualRepresentation::AT(v) => out.append(v.as_str()),
            VisualRepresentation::CS(v) => out.append(v.as_str()),
            VisualRepresentation::DA(v) => v.push_text(out),
            VisualRepresentation::DS(v) => out.append(v.as_str()),
            VisualRepresentation::DT(v) => v.push_text(out),
            VisualRepresentation::FL(v) => out.append(v.as_str()),
            VisualRepresentation::FD(v) => out.append(v.as_str()),
            VisualRepresentation::IS(v) => out.append(v.as_str()),
            VisualRepresentation::LO(v) => out.append(v.as_str()),
            VisualRepresentation::LT(v) => out.append(v.as_str()),
            VisualRepresentation::OB(v) => {
                let s = string_of_bytes(v);
                out.append(s.as_str())
            },
            VisualRepresentation::OD(v) => push_joined(out, v),
            VisualRepresentation::OF(v) => push_joined(out, v),
            VisualRepresentation::OL(v) => push_joined_u32(out, v),
            VisualRepresentation::OV(v) => push_joined_i64(out, v),
            VisualRepresentation::OW(v) => push_joined_u16(out, v),
            VisualRepresentation::PN(v) => out.append(v.as_str()),
            VisualRepresentation::SH(v) => out.append(v.as_str()),
            VisualRepresentation::SL(v) => push_integer(out, *v as i64),
            VisualRepresentation::SQ(items) => push_items(out, items),
            VisualRepresentation::SS(v) => push_integer(out, *v as i64),
            VisualRepresentation::ST(v) => out.append(v.as_str()),
            VisualRepresentation::SV(v) => push_integer(out, *v as i64),
            VisualRepresentation::TM(v) => v.push_text(out),
            VisualRepresentation::UC(v) => out.append(v.as_str()),
            VisualRepresentation::UI(v) => out.append(v.as_str()),
            VisualRepresentation::UL(v) => push_integer(out, *v as i64),
            VisualRepresentation::UN(v) => {
                let s = string_of_bytes(v);
                out.append(s.as_str())
            },
            VisualRepresentation::UR(v) => out.append(v.as_str()),
            VisualRepresentation::US(v) => push_integer(out, *v as i64),
            VisualRepresentation::UT(v) => out.append(v.as_str()),
        }
    }

    /// The text of this value.
    pub fn to_string(&self) -> (res: String)
        ensures
            res@ == self.text(),
    {
        let mut out = String::new();
        self.push_text(&mut out);
        out
    }
}

impl Attribute {
    /// Appends the text of this attribute to `out`.
    pub fn push_text(&self, out: &mut String)
        ensures
            final(out)@ == old(out)@ + self.text(),
        decreases self,
    {
        push_char(out, '(');
        push_hex(out, self.group as u64, 4);
        push_char(out, ',');
        push_hex(out, self.element as u64, 4);
        push_char(out, ')');
        push_char(out, ' ');
        let (a, b) = self.vr_value.get_kind().letters();
        push_char(out, a);
        push_char(out, b);
        push_char(out, ' ');
        out.append(self.name.as_str());
        push_char(out, ':');
        push_char(out, ' ');
        self.vr_value.push_text(out);
        push_char(out, '\n');
    }

    /// The text of this attribute.
    pub fn to_string(&self) -> (res: String)
        ensures
            res@ == self.text(),
    {
        let mut out = String::new();
        self.push_text(&mut out);
        out
    }
}

/// The payload that a value of the given kind takes from `value`, where it
/// takes one: a text is read by the rule of the kind, items go to a sequence
/// and to no other kind, and a single attribute goes to no kind.
pub open spec fn assigned_payload(kind: VrKind, value: DicomValue) -> Option<Payload> {
    match value {
        DicomValue::String(text) => parse_payload(kind, text@),
        DicomValue::Object(_) => None,
        DicomValue::ObjectVec(items) => if kind == VrKind::SQ {
            Some(Payload::Items(items@))
        } else {
            None
        },
    }
}

/// Whether `e` is the error for a `value` that a value of the given kind does
/// not take: that of the parsing rule for a text, and for attributes an
/// invalid value representation that names the kind.
pub open spec fn is_assign_error(kind: VrKind, value: DicomValue, e: DicomError) -> bool {
    match value {
        DicomValue::String(text) => is_parse_error(kind, text@, e),
        _ => e matches DicomError::InvalidVR(m) && m@ == kind.code(),
    }
}

impl VisualRepresentation {
    /// Replaces what this value holds by what `value` stands for, and keeps
    /// the kind. Where `value` is refused, nothing changes.
    pub fn set(&mut self, value: DicomValue) -> (res: Result<(), DicomError>)
        ensures
            final(self).kind() == old(self).kind(),
            match assigned_payload(old(self).kind(), value) {
                Some(p) => res is Ok && final(self).payload() == p && final(self).wf(),
                None => res matches Err(e) && is_assign_error(old(self).kind(), value, e)
                    && *final(self) == *old(self),
            },
    {
        let kind = self.get_kind();
        match value {
            DicomValue::String(text) => match Self::parse(kind, text) {
                Ok(v) => {
                    *self = v;
                    Ok(())
                },
                Err(e) => Err(e),
            },
            DicomValue::Object(_) => Err(DicomError::InvalidVR(kind.name())),
            DicomValue::ObjectVec(items) => match kind {
                VrKind::SQ => {
                    *self = VisualRepresentation::SQ(items);
                    Ok(())
                },
                _ => Err(DicomError::InvalidVR(kind.name())),
            },
        }
    }
}

impl<'a> DicomValue<'a> {
    /// The text of this value: the text itself, or that of the attributes.
    pub open spec fn text(&self) -> Seq<char> {
        match self {
            DicomValue::String(text) => text@,
            DicomValue::Object(a) => a.text(),
            DicomValue::ObjectVec(items) => items_text(items@),
        }
    }

    /// The attribute, where this value is one attribute.
    pub fn object(&self) -> (res: Option<Rc<Attribute>>)
        ensures
            res == match self {
                DicomValue::Object(a) => Some(*a),
                _ => None,
            },
    {
        match self {
            DicomValue::Object(a) => Some(share(a)),
            _ => None,
        }
    }

    /// The items, where this value is the items of a sequence, and else none.
    pub fn object_vec(&self) -> (res: Vec<Rc<Attribute>>)
        ensures
            res@ == match self {
                DicomValue::ObjectVec(items) => items@,
                _ => Seq::empty(),
            },
    {
        match self {
            DicomValue::ObjectVec(items) => {
                let mut out: Vec<Rc<Attribute>> = Vec::new();
                let mut k: usize = 0;
                while k < items.len()
                    invariant
                        k <= items@.len(),
                        out@ == items@.take(k as int),
                    decreases items@.len() - k,
                {
                    out.push(share(&items[k]));
                    k = k + 1;
                }
                out
            },
            _ => Vec::new(),
        }
    }

    /// The text of this value.
    pub fn to_string(&self) -> (res: String)
        ensures
            res@ == self.text(),
    {
        match self {
            DicomValue::String(text) => String::from_str(text),
            DicomValue::Object(a) => a.to_string(),
            DicomValue::ObjectVec(items) => {
                let mut out = String::new();
                push_items(&mut out, items);
                out
            },
        }
    }
}

/// What every data element tells of itself.
pub trait DicomTag {
    /// The element as plain values.
    spec fn facts(&self) -> AttributeView;

    /// The name of the element.
    fn name(&self) -> (res: String)
        ensures
            res@ == self.facts().name,
    ;

    /// The tag: group and element.
    fn tag(&self) -> (res: (u16, u16))
        ensures
            res == self.facts().tag,
    ;

    /// The value of the element.
    fn vr(&self) -> (res: &VisualRepresentation)
        ensures
            *res == self.facts().value,
    ;

    /// The group of the tag.
    fn group(&self) -> (res: u16)
        ensures
            res == self.facts().tag.0,
    ;

    /// The element of the tag; none for the element `0000`, which stands for
    /// the group as a whole.
    fn element(&self) -> (res: Option<u16>)
        ensures
            res == if self.facts().tag.1 == 0 {
                None
            } else {
                Some(self.facts().tag.1)
            },
    ;

    /// Whether the element is retired.
    fn is_deprecated(&self) -> (res: bool)
        ensures
            res == self.facts().is_deprecated,
    ;

    /// How many values the element may hold.
    fn multiplicity(&self) -> (res: &str)
        ensures
            res@ == self.facts().multiplicity,
    ;
}

impl DicomTag for Attribute {
    open spec fn facts(&self) -> AttributeView {
        self@
    }

    fn name(&self) -> (res: String) {
        self.name.clone()
    }

    fn tag(&self) -> (res: (u16, u16)) {
        (self.group, self.element)
    }

    fn vr(&self) -> (res: &VisualRepresentation) {
        &self.vr_value
    }

    fn group(&self) -> (res: u16) {
        self.group
    }

    fn element(&self) -> (res: Option<u16>) {
        if self.element == 0 {
            None
        } else {
            Some(self.element)
        }
    }

    fn is_deprecated(&self) -> (res: bool) {
        self.is_deprecated
    }

    fn multiplicity(&self) -> (res: &str) {
        self.multiplicity.as_str()
    }
}

/// The text of a tag: `(GGGG,EEEE)`, in hexadecimal digits.
pub open spec fn tag_text(tag: (u16, u16)) -> Seq<char> {
    seq!['('] + hex_padded(tag.0 as nat, 4) + seq![','] + hex_padded(tag.1 as nat, 4) + seq![')']
}

/// Whether the catalogue lets an attribute with this tag be made or changed:
/// it knows the tag, and either the tag is not retired or the caller allows
/// retired tags.
pub open spec fn is_allowed(
    registry: Map<(u16, u16), AttributeMetadata>,
    tag: (u16, u16),
    allow_legacy: bool,
) -> bool {
    registry.contains_key(tag) && (allow_legacy || !registry[tag].is_deprecated)
}

/// Whether `e` is the error for a tag that is not allowed: an invalid tag
/// where the catalogue does not know it, and else an obsolete element, with its name.
pub open spec fn is_refusal(
    registry: Map<(u16, u16), AttributeMetadata>,
    tag: (u16, u16),
    e: DicomError,
) -> bool {
    if registry.contains_key(tag) {
        e matches DicomError::ObsoleteElement(m) && m@ == registry[tag].name@
    } else {
        e matches DicomError::InvalidTag(m) && m@ == tag_text(tag)
    }
}

fn tag_string(tag: (u16, u16)) -> (res: String)
    ensures
        res@ == tag_text(tag),
{
    let mut out = String::new();
    push_char(&mut out, '(');
    push_hex(&mut out, tag.0 as u64, 4);
    push_char(&mut out, ',');
    push_hex(&mut out, tag.1 as u64, 4);
    push_char(&mut out, ')');
    out
}

fn lookup_allowed<'a>(registry: &'a TagRegistry, tag: (u16, u16), allow_legacy: bool) -> (res:
    Result<&'a AttributeMetadata, DicomError>)
    ensures
        match res {
            Ok(m) => is_allowed(registry@, tag, allow_legacy) && *m == registry@[tag],
            Err(e) => !is_allowed(registry@, tag, allow_legacy) && is_refusal(registry@, tag, e),
        },
{
    match registry.lookup(tag) {
        None => Err(DicomError::InvalidTag(tag_string(tag))),
        Some(m) => {
            if m.is_deprecated && !allow_legacy {
                Err(DicomError::ObsoleteElement(m.name.clone()))
            } else {
                Ok(m)
            }
        },
    }
}

impl Attribute {
    /// Whether the value of this attribute is valid for its kind.
    pub open spec fn wf(&self) -> bool {
        self@.value.wf()
    }

    /// Whether this attribute is the tag with what the catalogue says of it.
    pub open spec fn describes(&self, tag: (u16, u16), m: AttributeMetadata) -> bool {
        &&& self@.tag == tag
        &&& self@.name == m.name@
        &&& self@.multiplicity == m.multiplicity@
        &&& self@.is_deprecated == m.is_deprecated
        &&& self@.value.kind() == m.vr_kind
    }

    /// Makes the attribute of `tag` with a fresh value of its kind. A tag that
    /// the catalogue does not know is refused, and so is a retired one unless
    /// `allow_legacy` is set.
    pub fn new(registry: &TagRegistry, tag: (u16, u16), allow_legacy: bool) -> (res: Result<
        Attribute,
        DicomError,
    >)
        ensures
            match res {
                Ok(a) => {
                    &&& is_allowed(registry@, tag, allow_legacy)
                    &&& a.describes(tag, registry@[tag])
                    &&& a@.value.payload() == default_payload(registry@[tag].vr_kind)
                    &&& a.wf()
                },
                Err(e) => !is_allowed(registry@, tag, allow_legacy) && is_refusal(
                    registry@,
                    tag,
                    e,
                ),
            },
    {
        match lookup_allowed(registry, tag, allow_legacy) {
            Err(e) => Err(e),
            Ok(m) => Ok(
                Attribute {
                    group: tag.0,
                    element: tag.1,
                    name: m.name.clone(),
                    multiplicity: m.multiplicity.clone(),
                    is_deprecated: m.is_deprecated,
                    vr_value: VisualRepresentation::of_kind(m.vr_kind),
                },
            ),
        }
    }

    /// Makes the attribute of `tag` with the value that `value` stands for.
    /// The tag is checked as in [`Attribute::new`], and then the text.
    pub fn from_string(
        registry: &TagRegistry,
        tag: (u16, u16),
        value: &str,
        allow_legacy: bool,
    ) -> (res: Result<Attribute, DicomError>)
        ensures
            match res {
                Ok(a) => {
                    &&& is_allowed(registry@, tag, allow_legacy)
                    &&& a.describes(tag, registry@[tag])
                    &&& parse_payload(registry@[tag].vr_kind, value@) == Some(a@.value.payload())
                    &&& a.wf()
                },
                Err(e) => if is_allowed(registry@, tag, allow_legacy) {
                    &&& parse_payload(registry@[tag].vr_kind, value@) is None
                    &&& is_parse_error(registry@[tag].vr_kind, value@, e)
                } else {
                    is_refusal(registry@, tag, e)
                },
            },
    {
        match lookup_allowed(registry, tag, allow_legacy) {
            Err(e) => Err(e),
            Ok(m) => match VisualRepresentation::parse(m.vr_kind, value) {
                Err(e) => Err(e),
                Ok(v) => Ok(
                    Attribute {
                        group: tag.0,
                        element: tag.1,
                        name: m.name.clone(),
                        multiplicity: m.multiplicity.clone(),
                        is_deprecated: m.is_deprecated,
                        vr_value: v,
                    },
                ),
            },
        }
    }

    /// The kind of this attribute's value.
    pub fn vr_kind(&self) -> (res: VrKind)
        ensures
            res == self@.value.kind(),
    {
        self.vr_value.get_kind()
    }

    /// Replaces the value of this attribute by what `value` stands for; the
    /// kind and everything else stay. A retired attribute is changed only
    /// where `allow_legacy` is set. Where the change is refused, nothing changes.
    pub fn set_value(&mut self, value: DicomValue, allow_legacy: bool) -> (res: Result<
        (),
        DicomError,
    >)
        ensures
            final(self)@.tag == old(self)@.tag,
            final(self)@.name == old(self)@.name,
            final(self)@.multiplicity == old(self)@.multiplicity,
            final(self)@.is_deprecated == old(self)@.is_deprecated,
            final(self)@.value.kind() == old(self)@.value.kind(),
            if old(self)@.is_deprecated && !allow_legacy {
                &&& res matches Err(DicomError::ObsoleteElement(m))
                &&& m@ == old(self)@.name
                &&& *final(self) == *old(self)
            } else {
                match assigned_payload(old(self)@.value.kind(), value) {
                    Some(p) => res is Ok && final(self)@.value.payload() == p && final(self).wf(),
                    None => {
                        &&& res matches Err(e)
                        &&& is_assign_error(old(self)@.value.kind(), value, e)
                        &&& *final(self) == *old(self)
                    },
                }
            },
    {
        if self.is_deprecated && !allow_legacy {
            return Err(DicomError::ObsoleteElement(self.name.clone()));
        }
        self.vr_value.set(value)
    }
}

/// The literal `0` is a decimal literal.
pub proof fn lemma_zero_is_decimal()
    ensures
        is_decimal_literal(seq!['0']),
{
    reveal_with_fuel(crate::decimal::digit_run_end, 3);
}

/// What a text is read as is valid for the kind it was read for.
pub proof fn lemma_parse_payload_fits(kind: VrKind, text: Seq<char>)
    ensures
        parse_payload(kind, text) matches Some(p) ==> payload_fits(kind, p),
{
    crate::temporal::lemma_date_of_text_wf(text);
    crate::temporal::lemma_time_of_text_wf(text);
    crate::temporal::lemma_datetime_of_text_wf(text);
}

/// Writing a value that was read from a text gives a text that reads as
/// the same value. For the kinds that keep a text, a decimal literal, a date
/// or the bytes of the text, it gives the very text that was read.
pub proof fn lemma_text_round_trip(v: VisualRepresentation, text: Seq<char>)
    requires
        parse_payload(v.kind(), text) == Some(v.payload()),
    ensures
        parse_payload(v.kind(), v.text()) == Some(v.payload()),
        v.kind().class() == VrClass::Text || v.kind().class() == VrClass::Decimal
            || v.kind().class() == VrClass::Date || v.kind().class() == VrClass::Bytes
            ==> v.text() == text,
{
    let kind = v.kind();
    match kind.class() {
        VrClass::Text => {},
        VrClass::Decimal => {},
        VrClass::Decimals => {
            let ws = words(text);
            crate::text::lemma_words_are_words(text, 0);
            crate::text::lemma_words_of_join(ws);
        },
        VrClass::Integer => {
            let n = parse_integer(text, kind.is_signed(), kind.min_value(), kind.max_value())->0;
            crate::number::lemma_integer_text_round_trip(
                n,
                kind.is_signed(),
                kind.min_value(),
                kind.max_value(),
            );
        },
        VrClass::Integers => {
            let signed = kind.is_signed();
            let lo = kind.min_value();
            let hi = kind.max_value();
            let ws = words(text);
            let vs = parse_integer_words(ws, signed, lo, hi)->0;
            let texts = integer_texts(vs);
            assert forall|k: int| 0 <= k < texts.len() implies crate::text::is_word(
                #[trigger] texts[k],
            ) && parse_integer(texts[k], signed, lo, hi) == Some(vs[k]) by {
                crate::number::lemma_integer_text_is_word(vs[k]);
                crate::number::lemma_integer_text_round_trip(vs[k], signed, lo, hi);
            }
            crate::text::lemma_words_of_join(texts);
            assert(parse_integer_words(texts, signed, lo, hi)->0 =~= vs);
        },
        VrClass::Bytes => {
            vstd::utf8::encode_utf8_valid_utf8(text);
            vstd::utf8::encode_utf8_decode_utf8(text);
        },
        VrClass::Date => {
            crate::temporal::lemma_date_text_round_trip(text);
        },
        VrClass::Time => {
            crate::temporal::lemma_time_of_text_wf(text);
            crate::temporal::lemma_time_round_trip(time_of_text(text)->0);
        },
        VrClass::DateTime => {
            crate::temporal::lemma_datetime_of_text_wf(text);
            crate::temporal::lemma_datetime_round_trip(datetime_of_text(text)->0);
        },
        VrClass::Items => {},
    }
}

/// A retired tag that the catalogue knows is refused without the legacy
/// flag, as an obsolete element with its name, and allowed with the flag.
pub proof fn lemma_deprecated_needs_flag(
    registry: Map<(u16, u16), AttributeMetadata>,
    tag: (u16, u16),
    e: DicomError,
)
    requires
        registry.contains_key(tag),
        registry[tag].is_deprecated,
    ensures
        !is_allowed(registry, tag, false),
        is_allowed(registry, tag, true),
        is_refusal(registry, tag, e) <==> (e matches DicomError::ObsoleteElement(m) && m@
            == registry[tag].name@),
{
}

/// The attribute behind a handle.
pub open spec fn behind(handle: Rc<Attribute>) -> Attribute {
    *handle
}

/// How deep the attributes `items` nest: the depth of the deepest of them.
pub open spec fn items_depth(items: Seq<Rc<Attribute>>) -> nat
    decreases items,
{
    if items.len() == 0 {
        0
    } else {
        let rest = items_depth(items.drop_last());
        let last = items.last().depth();
        if rest >= last {
            rest
        } else {
            last
        }
    }
}

impl VisualRepresentation {
    /// How deep this value nests: zero for a value that holds no attributes.
    pub open spec fn depth(&self) -> nat
        decreases self,
    {
        match self {
            VisualRepresentation::SQ(items) => items_depth(items@),
            _ => 0,
        }
    }
}

impl Attribute {
    /// How deep this attribute nests: one more than its value.
    pub open spec fn depth(&self) -> nat
        decreases self,
    {
        1 + self@.value.depth()
    }

    /// Whether this attribute holds `other` among the items of its sequence,
    /// or in the sequence of one of them, however deep.
    pub open spec fn holds(&self, other: Attribute) -> bool
        decreases self,
    {
        match self@.value {
            VisualRepresentation::SQ(items) => exists|i: int|
                0 <= i < items@.len() && (*#[trigger] items@[i] == other || items@[i].holds(
                    other,
                )),
            _ => false,
        }
    }
}

/// None of the attributes nests deeper than all of them together.
pub proof fn lemma_items_depth(items: Seq<Rc<Attribute>>, i: int)
    requires
        0 <= i < items.len(),
    ensures
        items[i].depth() <= items_depth(items),
    decreases items.len(),
{
    if i < items.len() - 1 {
        lemma_items_depth(items.drop_last(), i);
    }
}

/// An attribute nests deeper than every attribute it holds. So the
/// attributes form a tree: no attribute holds itself.
pub proof fn lemma_no_attribute_holds_itself(a: Attribute, other: Attribute)
    requires
        a.holds(other),
    ensures
        other.depth() < a.depth(),
        other != a,
    decreases a,
{
    match a@.value {
        VisualRepresentation::SQ(items) => {
            let i = choose|i: int|
                0 <= i < items@.len() && (*#[trigger] items@[i] == other || items@[i].holds(
                    other,
                ));
            lemma_items_depth(items@, i);
            let item = behind(items@[i]);
            if item != other {
                lemma_no_attribute_holds_itself(item, other);
            }
        },
        _ => {},
    }
}

} // verus!
