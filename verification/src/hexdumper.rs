//! A dump of bytes as hexadecimal digits beside their printable characters.

use vstd::prelude::*;
use crate::error::DicomError;
use crate::number::{hex_char, hex_padded, push_hex};
use crate::text::push_char;

verus! {

/// The hexadecimal digits of `n`, with leading zeros up to `width` digits
/// where `n` has fewer, and all of its digits where it has more.
pub open spec fn hex_at_least(n: nat, width: nat) -> Seq<char>
    decreases n, width,
{
    if n < 16 && width <= 1 {
        seq![hex_char(n as int)]
    } else {
        hex_at_least(
            n / 16,
            if width > 0 {
                (width - 1) as nat
            } else {
                0
            },
        ).push(hex_char((n % 16) as int))
    }
}

/// The character shown for a byte: itself where it is a printable ASCII
/// character or a space, and a point else.
pub open spec fn shown(b: u8) -> char {
    if 0x20 <= b <= 0x7E {
        b as char
    } else {
        '.'
    }
}

/// The bytes as pairs of hexadecimal digits, each pair followed by a space.
pub open spec fn hex_pairs(bytes: Seq<u8>) -> Seq<char>
    decreases bytes.len(),
{
    if bytes.len() == 0 {
        Seq::empty()
    } else {
        hex_pairs(bytes.drop_last()) + hex_padded(bytes.last() as nat, 2) + seq![' ']
    }
}

/// Four spaces for each of `n` bytes that a row lacks.
pub open spec fn gap(n: nat) -> Seq<char>
    decreases n,
{
    if n == 0 {
        Seq::empty()
    } else {
        gap((n - 1) as nat) + seq![' ', ' ', ' ', ' ']
    }
}

/// The characters shown for the bytes, in order.
pub open spec fn shown_text(bytes: Seq<u8>) -> Seq<char> {
    Seq::new(bytes.len(), |i: int| shown(bytes[i]))
}

/// One row of the dump: the offset in at least eight hexadecimal digits, a
/// colon, the bytes in hexadecimal, the gap that a short row leaves, a bar,
/// the characters of the bytes, and a line end.
pub open spec fn row_text(offset: nat, row: Seq<u8>) -> Seq<char> {
    hex_at_least(offset, 8) + seq![':', ' '] + hex_pairs(row) + gap((16 - row.len()) as nat)
        + seq![' ', '|', ' '] + shown_text(row) + seq!['\n']
}

/// The end of the row that begins at `offset`.
pub open spec fn row_end(len: int, offset: int) -> int {
    if offset + 16 <= len {
        offset + 16
    } else {
        len
    }
}

/// The rows of the dump from `offset` on, sixteen bytes to a row.
pub open spec fn dump_from(data: Seq<u8>, offset: int) -> Seq<char>
    decreases data.len() - offset,
{
    if offset < 0 || offset >= data.len() {
        Seq::empty()
    } else {
        row_text(offset as nat, data.subrange(offset, row_end(data.len() as int, offset)))
            + dump_from(data, row_end(data.len() as int, offset))
    }
}

/// The dump of `data`.
pub open spec fn dump_text(data: Seq<u8>) -> Seq<char> {
    dump_from(data, 0)
}

fn push_hex_at_least(out: &mut String, n: u64, width: u32)
    ensures
        final(out)@ == old(out)@ + hex_at_least(n as nat, width as nat),
    decreases n, width,
{
    if !(n < 16 && width <= 1) {
        push_hex_at_least(
            out,
            n / 16,
            if width > 0 {
                width - 1
            } else {
                0
            },
        );
    }
    let d: u8 = (n % 16) as u8;
    let c: char = if d < 10 {
        (48u8 + d) as char
    } else {
        (55u8 + d) as char
    };
    push_char(out, c);
}

fn push_row(out: &mut String, data: &[u8], offset: usize, end: usize)
    requires
        offset < end <= data@.len(),
        end - offset <= 16,
    ensures
        final(out)@ == old(out)@ + row_text(
            offset as nat,
            data@.subrange(offset as int, end as int),
        ),
{
    let ghost row = data@.subrange(offset as int, end as int);
    push_hex_at_least(out, offset as u64, 8);
    push_char(out, ':');
    push_char(out, ' ');
    let ghost head = out@;
    let mut i: usize = offset;
    while i < end
        invariant
            offset <= i <= end <= data@.len(),
            row == data@.subrange(offset as int, end as int),
            out@ == head + hex_pairs(row.take(i - offset)),
        decreases end - i,
    {
        push_hex(out, data[i] as u64, 2);
        push_char(out, ' ');
        proof {
            let next = row.take(i - offset + 1);
            assert(next.drop_last() =~= row.take(i - offset));
        }
        i = i + 1;
    }
    assert(row.take(i - offset) =~= row);
    let ghost pairs = out@;
    let missing: usize = 16 - (end - offset);
    let mut k: usize = 0;
    while k < missing
        invariant
            k <= missing,
            out@ == pairs + gap(k as nat),
        decreases missing - k,
    {
        push_char(out, ' ');
        push_char(out, ' ');
        push_char(out, ' ');
        push_char(out, ' ');
        k = k + 1;
    }
    push_char(out, ' ');
    push_char(out, '|');
    push_char(out, ' ');
    let ghost bar = out@;
    let mut j: usize = offset;
    while j < end
        invariant
            offset <= j <= end <= data@.len(),
            row == data@.subrange(offset as int, end as int),
            out@ == bar + shown_text(row.take(j - offset)),
        decreases end - j,
    {
        let b = data[j];
        let c: char = if 0x20 <= b && b <= 0x7E {
            b as char
        } else {
            '.'
        };
        push_char(out, c);
        j = j + 1;
    }
    push_char(out, '\n');
}

/// Renders the dump of `data`: one row for every sixteen bytes.
pub fn hex_and_ascii(data: &[u8]) -> (res: String)
    ensures
        res@ == dump_text(data@),
{
    let mut out = String::new();
    let n = data.len();
    let mut offset: usize = 0;
    while offset < n
        invariant
            n == data@.len(),
            offset <= n,
            out@ + dump_from(data@, offset as int) == dump_text(data@),
        decreases n - offset,
    {
        let end: usize = if n - offset >= 16 {
            offset + 16
        } else {
            n
        };
        let ghost before = out@;
        push_row(&mut out, data, offset, end);
        proof {
            assert(out@ + dump_from(data@, end as int) =~= before + dump_from(
                data@,
                offset as int,
            ));
        }
        offset = end;
    }
    out
}

/// Dumps what was read from a file: the dump of the bytes where the reading
/// went well, and its error where it did not.
pub fn dicom_hexdump(contents: Result<Vec<u8>, DicomError>) -> (res: Result<String, DicomError>)
    ensures
        match contents {
            Ok(data) => res matches Ok(text) && text@ == dump_text(data@),
            Err(e) => res == Err::<String, DicomError>(e),
        },
{
    match contents {
        Ok(data) => Ok(hex_and_ascii(data.as_slice())),
        Err(e) => Err(e),
    }
}

} // verus!
