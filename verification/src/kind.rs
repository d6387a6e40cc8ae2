//! The kinds of value representation and the classes they fall into.

use vstd::prelude::*;
use crate::text::{push_char, to_chars};

verus! {

/// A kind of value representation, by its two-letter code.
#[derive(Debug, Clone, Copy, PartialEq, Eq, Hash, Structural)]
pub enum VrKind {
    /// Application Entity
    AE,
    /// Age String
    AS,
    /// Attribute Tag
    AT,
    /// Code String
    CS,
    /// Date
    DA,
    /// Decimal String
    DS,
    /// Date Time
    DT,
    /// Floating Point Single
    FL,
    /// Floating Point Double
    FD,
    /// Integer String
    IS,
    /// Long String
    LO,
    /// Long Text
    LT,
    /// Other Byte
    OB,
    /// Other Double
    OD,
    /// Other Float
    OF,
    /// Other Long
    OL,
    /// Other Very Long
    OV,
    /// Other Word
    OW,
    /// Person Name
    PN,
    /// Short String
    SH,
    /// Signed Long
    SL,
    /// Sequence of Items
    SQ,
    /// Signed Short
    SS,
    /// Short Text
    ST,
    /// Signed Very Long
    SV,
    /// Time
    TM,
    /// Unlimited Characters
    UC,
    /// Unique Identifier
    UI,
    /// Unsigned Long
    UL,
    /// Unknown
    UN,
    /// Universal Resource Identifier
    UR,
    /// Unsigned Short
    US,
    /// Unlimited Text
    UT,
}

/// What a value of a kind holds.
#[derive(Debug, Clone, Copy, PartialEq, Eq, Hash, Structural)]
pub enum VrClass {
    /// Any text.
    Text,
    /// One decimal literal.
    Decimal,
    /// Decimal literals, separated by white space.
    Decimals,
    /// One integer of a fixed width.
    Integer,
    /// Integers of a fixed width, separated by white space.
    Integers,
    /// Raw bytes.
    Bytes,
    /// A calendar date.
    Date,
    /// A time of day.
    Time,
    /// A date and a time.
    DateTime,
    /// Nested attributes.
    Items,
}

/// The kind that a pair of letters names; `UN` where it names none.
pub open spec fn kind_of_letters(a: char, b: char) -> VrKind {
    if a == 'A' && b == 'E' {
        VrKind::AE
    } else if a == 'A' && b == 'S' {
        VrKind::AS
    } else if a == 'A' && b == 'T' {
        VrKind::AT
    } else if a == 'C' && b == 'S' {
        VrKind::CS
    } else if a == 'D' && b == 'A' {
        VrKind::DA
    } else if a == 'D' && b == 'S' {
        VrKind::DS
    } else if a == 'D' && b == 'T' {
        VrKind::DT
    } else if a == 'F' && b == 'L' {
        VrKind::FL
    } else if a == 'F' && b == 'D' {
        VrKind::FD
    } else if a == 'I' && b == 'S' {
        VrKind::IS
    } else if a == 'L' && b == 'O' {
        VrKind::LO
    } else if a == 'L' && b == 'T' {
        VrKind::LT
    } else if a == 'O' && b == 'B' {
        VrKind::OB
    } else if a == 'O' && b == 'D' {
        VrKind::OD
    } else if a == 'O' && b == 'F' {
        VrKind::OF
    } else if a == 'O' && b == 'L' {
        VrKind::OL
    } else if a == 'O' && b == 'V' {
        VrKind::OV
    } else if a == 'O' && b == 'W' {
        VrKind::OW
    } else if a == 'P' && b == 'N' {
        VrKind::PN
    } else if a == 'S' && b == 'H' {
        VrKind::SH
    } else if a == 'S' && b == 'L' {
        VrKind::SL
    } else if a == 'S' && b == 'Q' {
        VrKind::SQ
    } else if a == 'S' && b == 'S' {
        VrKind::SS
    } else if a == 'S' && b == 'T' {
        VrKind::ST
    } else if a == 'S' && b == 'V' {
        VrKind::SV
    } else if a == 'T' && b == 'M' {
        VrKind::TM
    } else if a == 'U' && b == 'C' {
        VrKind::UC
    } else if a == 'U' && b == 'I' {
        VrKind::UI
    } else if a == 'U' && b == 'L' {
        VrKind::UL
    } else if a == 'U' && b == 'R' {
        VrKind::UR
    } else if a == 'U' && b == 'S' {
        VrKind::US
    } else if a == 'U' && b == 'T' {
        VrKind::UT
    } else {
        VrKind::UN
    }
}

/// The kind that a code names: any text that is not the code of a kind names `UN`.
pub open spec fn kind_of_name(name: Seq<char>) -> VrKind {
    if name.len() == 2 {
        kind_of_letters(name[0], name[1])
    } else {
        VrKind::UN
    }
}

impl VrKind {
    /// The two-letter code of this kind.
    pub open spec fn code(self) -> Seq<char> {
        match self {
            VrKind::AE => seq!['A', 'E'],
            VrKind::AS => seq!['A', 'S'],
            VrKind::AT => seq!['A', 'T'],
            VrKind::CS => seq!['C', 'S'],
            VrKind::DA => seq!['D', 'A'],
            VrKind::DS => seq!['D', 'S'],
            VrKind::DT => seq!['D', 'T'],
            VrKind::FL => seq!['F', 'L'],
            VrKind::FD => seq!['F', 'D'],
            VrKind::IS => seq!['I', 'S'],
            VrKind::LO => seq!['L', 'O'],
            VrKind::LT => seq!['L', 'T'],
            VrKind::OB => seq!['O', 'B'],
            VrKind::OD => seq!['O', 'D'],
            VrKind::OF => seq!['O', 'F'],
            VrKind::OL => seq!['O', 'L'],
            VrKind::OV => seq!['O', 'V'],
            VrKind::OW => seq!['O', 'W'],
            VrKind::PN => seq!['P', 'N'],
            VrKind::SH => seq!['S', 'H'],
            VrKind::SL => seq!['S', 'L'],
            VrKind::SQ => seq!['S', 'Q'],
            VrKind::SS => seq!['S', 'S'],
            VrKind::ST => seq!['S', 'T'],
            VrKind::SV => seq!['S', 'V'],
            VrKind::TM => seq!['T', 'M'],
            VrKind::UC => seq!['U', 'C'],
            VrKind::UI => seq!['U', 'I'],
            VrKind::UL => seq!['U', 'L'],
            VrKind::UN => seq!['U', 'N'],
            VrKind::UR => seq!['U', 'R'],
            VrKind::US => seq!['U', 'S'],
            VrKind::UT => seq!['U', 'T'],
        }
    }

    /// The class of this kind.
    pub open spec fn class(self) -> VrClass {
        match self {
            VrKind::AE => VrClass::Text,
            VrKind::AS => VrClass::Text,
            VrKind::AT => VrClass::Text,
            VrKind::CS => VrClass::Text,
            VrKind::DA => VrClass::Date,
            VrKind::DS => VrClass::Text,
            VrKind::DT => VrClass::DateTime,
            VrKind::FL => VrClass::Decimal,
            VrKind::FD => VrClass::Decimal,
            VrKind::IS => VrClass::Text,
            VrKind::LO => VrClass::Text,
            VrKind::LT => VrClass::Text,
            VrKind::OB => VrClass::Bytes,
            VrKind::OD => VrClass::Decimals,
            VrKind::OF => VrClass::Decimals,
            VrKind::OL => VrClass::Integers,
            VrKind::OV => VrClass::Integers,
            VrKind::OW => VrClass::Integers,
            VrKind::PN => VrClass::Text,
            VrKind::SH => VrClass::Text,
            VrKind::SL => VrClass::Integer,
            VrKind::SQ => VrClass::Items,
            VrKind::SS => VrClass::Integer,
            VrKind::ST => VrClass::Text,
            VrKind::SV => VrClass::Integer,
            VrKind::TM => VrClass::Time,
            VrKind::UC => VrClass::Text,
            VrKind::UI => VrClass::Text,
            VrKind::UL => VrClass::Integer,
            VrKind::UN => VrClass::Bytes,
            VrKind::UR => VrClass::Text,
            VrKind::US => VrClass::Integer,
            VrKind::UT => VrClass::Text,
        }
    }

    /// The least number a value of this kind can hold; zero for a kind that holds no integer.
    pub open spec fn min_value(self) -> int {
        match self {
            VrKind::SS => i16::MIN as int,
            VrKind::SL => i32::MIN as int,
            VrKind::SV | VrKind::OV => i64::MIN as int,
            _ => 0,
        }
    }

    /// The greatest number a value of this kind can hold; zero for a kind that holds no integer.
    pub open spec fn max_value(self) -> int {
        match self {
            VrKind::SS => i16::MAX as int,
            VrKind::SL => i32::MAX as int,
            VrKind::SV | VrKind::OV => i64::MAX as int,
            VrKind::US | VrKind::OW => u16::MAX as int,
            VrKind::UL | VrKind::OL => u32::MAX as int,
            _ => 0,
        }
    }

    /// Whether a number of this kind may be negative.
    pub open spec fn is_signed(self) -> bool {
        self.min_value() < 0
    }

    /// The kind that `name` is the code of; `UN` where it is the code of none.
    pub fn from_name(name: &str) -> (res: VrKind)
        ensures
            res == kind_of_name(name@),
    {
        let chars = to_chars(name);
        if chars.len() != 2 {
            return VrKind::UN;
        }
        let a = chars[0];
        let b = chars[1];
        if a == 'A' && b == 'E' {
            VrKind::AE
        } else if a == 'A' && b == 'S' {
            VrKind::AS
        } else if a == 'A' && b == 'T' {
            VrKind::AT
        } else if a == 'C' && b == 'S' {
            VrKind::CS
        } else if a == 'D' && b == 'A' {
            VrKind::DA
        } else if a == 'D' && b == 'S' {
            VrKind::DS
        } else if a == 'D' && b == 'T' {
            VrKind::DT
        } else if a == 'F' && b == 'L' {
            VrKind::FL
        } else if a == 'F' && b == 'D' {
            VrKind::FD
        } else if a == 'I' && b == 'S' {
            VrKind::IS
        } else if a == 'L' && b == 'O' {
            VrKind::LO
        } else if a == 'L' && b == 'T' {
            VrKind::LT
        } else if a == 'O' && b == 'B' {
            VrKind::OB
        } else if a == 'O' && b == 'D' {
            VrKind::OD
        } else if a == 'O' && b == 'F' {
            VrKind::OF
        } else if a == 'O' && b == 'L' {
            VrKind::OL
        } else if a == 'O' && b == 'V' {
            VrKind::OV
        } else if a == 'O' && b == 'W' {
            VrKind::OW
        } else if a == 'P' && b == 'N' {
            VrKind::PN
        } else if a == 'S' && b == 'H' {
            VrKind::SH
        } else if a == 'S' && b == 'L' {
            VrKind::SL
        } else if a == 'S' && b == 'Q' {
            VrKind::SQ
        } else if a == 'S' && b == 'S' {
            VrKind::SS
        } else if a == 'S' && b == 'T' {
            VrKind::ST
        } else if a == 'S' && b == 'V' {
            VrKind::SV
        } else if a == 'T' && b == 'M' {
            VrKind::TM
        } else if a == 'U' && b == 'C' {
            VrKind::UC
        } else if a == 'U' && b == 'I' {
            VrKind::UI
        } else if a == 'U' && b == 'L' {
            VrKind::UL
        } else if a == 'U' && b == 'R' {
            VrKind::UR
        } else if a == 'U' && b == 'S' {
            VrKind::US
        } else if a == 'U' && b == 'T' {
            VrKind::UT
        } else {
            VrKind::UN
        }
    }

    /// The two letters of this kind's code.
    pub fn letters(&self) -> (res: (char, char))
        ensures
            self.code() == seq![res.0, res.1],
    {
        match self {
            VrKind::AE => ('A', 'E'),
            VrKind::AS => ('A', 'S'),
            VrKind::AT => ('A', 'T'),
            VrKind::CS => ('C', 'S'),
            VrKind::DA => ('D', 'A'),
            VrKind::DS => ('D', 'S'),
            VrKind::DT => ('D', 'T'),
            VrKind::FL => ('F', 'L'),
            VrKind::FD => ('F', 'D'),
            VrKind::IS => ('I', 'S'),
            VrKind::LO => ('L', 'O'),
            VrKind::LT => ('L', 'T'),
            VrKind::OB => ('O', 'B'),
            VrKind::OD => ('O', 'D'),
            VrKind::OF => ('O', 'F'),
            VrKind::OL => ('O', 'L'),
            VrKind::OV => ('O', 'V'),
            VrKind::OW => ('O', 'W'),
            VrKind::PN => ('P', 'N'),
            VrKind::SH => ('S', 'H'),
            VrKind::SL => ('S', 'L'),
            VrKind::SQ => ('S', 'Q'),
            VrKind::SS => ('S', 'S'),
            VrKind::ST => ('S', 'T'),
            VrKind::SV => ('S', 'V'),
            VrKind::TM => ('T', 'M'),
            VrKind::UC => ('U', 'C'),
            VrKind::UI => ('U', 'I'),
            VrKind::UL => ('U', 'L'),
            VrKind::UN => ('U', 'N'),
            VrKind::UR => ('U', 'R'),
            VrKind::US => ('U', 'S'),
            VrKind::UT => ('U', 'T'),
        }
    }

    /// The two-letter code of this kind, as a string.
    pub fn name(&self) -> (res: String)
        ensures
            res@ == self.code(),
    {
        let (a, b) = self.letters();
        let mut out = String::new();
        push_char(&mut out, a);
        push_char(&mut out, b);
        out
    }

    /// The class of this kind.
    pub fn get_class(&self) -> (res: VrClass)
        ensures
            res == self.class(),
    {
        match self {
            VrKind::AE => VrClass::Text,
            VrKind::AS => VrClass::Text,
            VrKind::AT => VrClass::Text,
            VrKind::CS => VrClass::Text,
            VrKind::DA => VrClass::Date,
            VrKind::DS => VrClass::Text,
            VrKind::DT => VrClass::DateTime,
            VrKind::FL => VrClass::Decimal,
            VrKind::FD => VrClass::Decimal,
            VrKind::IS => VrClass::Text,
            VrKind::LO => VrClass::Text,
            VrKind::LT => VrClass::Text,
            VrKind::OB => VrClass::Bytes,
            VrKind::OD => VrClass::Decimals,
            VrKind::OF => VrClass::Decimals,
            VrKind::OL => VrClass::Integers,
            VrKind::OV => VrClass::Integers,
            VrKind::OW => VrClass::Integers,
            VrKind::PN => VrClass::Text,
            VrKind::SH => VrClass::Text,
            VrKind::SL => VrClass::Integer,
            VrKind::SQ => VrClass::Items,
            VrKind::SS => VrClass::Integer,
            VrKind::ST => VrClass::Text,
            VrKind::SV => VrClass::Integer,
            VrKind::TM => VrClass::Time,
            VrKind::UC => VrClass::Text,
            VrKind::UI => VrClass::Text,
            VrKind::UL => VrClass::Integer,
            VrKind::UN => VrClass::Bytes,
            VrKind::UR => VrClass::Text,
            VrKind::US => VrClass::Integer,
            VrKind::UT => VrClass::Text,
        }
    }

    /// The least number a value of this kind can hold.
    pub fn get_min_value(&self) -> (res: i64)
        ensures
            res == self.min_value(),
    {
        match self {
            VrKind::SS => i16::MIN as i64,
            VrKind::SL => i32::MIN as i64,
            VrKind::SV | VrKind::OV => i64::MIN,
            _ => 0,
        }
    }

    /// The greatest number a value of this kind can hold.
    pub fn get_max_value(&self) -> (res: i64)
        ensures
            res == self.max_value(),
    {
        match self {
            VrKind::SS => i16::MAX as i64,
            VrKind::SL => i32::MAX as i64,
            VrKind::SV | VrKind::OV => i64::MAX,
            VrKind::US | VrKind::OW => u16::MAX as i64,
            VrKind::UL | VrKind::OL => u32::MAX as i64,
            _ => 0,
        }
    }
}

/// The code of a kind names that kind.
pub proof fn lemma_code_names_kind(kind: VrKind)
    ensures
        kind_of_name(kind.code()) == kind,
{
}

} // verus!
