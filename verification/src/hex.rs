//! Upper-case hexadecimal: the form in which the flash's unique ID becomes the USB
//! serial number.

use vstd::prelude::*;

use crate::text::{ascii, lemma_ascii_is_utf8, str_from_utf8, utf8};

verus! {

/// The character of one hexadecimal digit.
pub open spec fn hex_digit(n: int) -> u8 {
    if n < 10 {
        ('0' as int + n) as u8
    } else {
        ('A' as int + n - 10) as u8
    }
}

/// Two upper-case hexadecimal digits for each byte, the high half first.
pub open spec fn hex_upper(bytes: Seq<u8>) -> Seq<u8> {
    Seq::new(
        2 * bytes.len(),
        |k: int|
            hex_digit(
                if k % 2 == 0 {
                    bytes[k / 2] as int / 16
                } else {
                    bytes[k / 2] as int % 16
                },
            ),
    )
}

/// The value of a hexadecimal digit, of either case.
pub open spec fn hex_value(digit: u8) -> int {
    if '0' as u8 <= digit <= '9' as u8 {
        digit - '0' as u8
    } else if 'A' as u8 <= digit <= 'F' as u8 {
        digit - 'A' as u8 + 10
    } else {
        digit - 'a' as u8 + 10
    }
}

/// The bytes that a text of hexadecimal digits stands for.
pub open spec fn hex_parse(text: Seq<u8>) -> Seq<u8> {
    Seq::new(
        text.len() / 2,
        |i: int| (16 * hex_value(text[2 * i]) + hex_value(text[2 * i + 1])) as u8,
    )
}

/// Reading the digits back as hexadecimal gives the bytes that were written, so a
/// serial number names exactly one flash ID.
pub proof fn law_hex_round_trip(bytes: Seq<u8>)
    ensures
        hex_parse(hex_upper(bytes)) == bytes,
{
    assert(hex_parse(hex_upper(bytes)) =~= bytes);
}

/// Hexadecimal text holds two characters for each byte, and no character but 0 to 9 and
/// A to F: first the one whose place in `0123456789ABCDEF` is the upper half of the byte,
/// then the one whose place is the lower half.
pub proof fn law_hex_digits_are_upper_case(bytes: Seq<u8>)
    ensures
        hex_upper(bytes).len() == 2 * bytes.len(),
        forall|k: int|
            0 <= k < 2 * bytes.len() ==> 0x30 <= #[trigger] hex_upper(bytes)[k] <= 0x39 || 0x41
                <= hex_upper(bytes)[k] <= 0x46,
        forall|i: int|
            0 <= i < bytes.len() ==> hex_upper(bytes)[2 * i]
                == "0123456789ABCDEF"@[#[trigger] bytes[i] as int / 16] as u8 && hex_upper(
                bytes,
            )[2 * i + 1] == "0123456789ABCDEF"@[bytes[i] as int % 16] as u8,
{
    reveal_strlit("0123456789ABCDEF");
}

/// The digits of a row of bytes are the digits of its parts, whatever stands beside them.
pub proof fn law_hex_in_parts(a: Seq<u8>, b: Seq<u8>)
    ensures
        hex_upper(a + b) == hex_upper(a) + hex_upper(b),
{
    assert(hex_upper(a + b) =~= hex_upper(a) + hex_upper(b));
}

/// Different bytes have different digits.
pub proof fn law_hex_injective(a: Seq<u8>, b: Seq<u8>)
    requires
        hex_upper(a) == hex_upper(b),
    ensures
        a == b,
{
    law_hex_round_trip(a);
    law_hex_round_trip(b);
}

/// Hexadecimal text is ASCII.
pub proof fn lemma_hex_is_ascii(bytes: Seq<u8>)
    ensures
        ascii(hex_upper(bytes)),
{
}

fn digit(n: u8) -> (d: u8)
    requires
        n < 16,
    ensures
        d == hex_digit(n as int),
{
    if n < 10 {
        0x30 + n
    } else {
        0x41 + (n - 10)
    }
}

/// Writes the digits of `bytes` to the front of `out` and leaves the rest of `out` alone.
pub fn hex_encode_upper(bytes: &[u8], out: &mut [u8])
    requires
        2 * bytes@.len() <= old(out)@.len(),
    ensures
        final(out)@ == hex_upper(bytes@) + old(out)@.skip(2 * bytes@.len() as int),
        final(out)@.len() == old(out)@.len(),
        forall|i: int|
            0 <= i < bytes@.len() ==> final(out)@[2 * i]
                == "0123456789ABCDEF"@[#[trigger] bytes@[i] as int / 16] as u8 && final(out)@[2 * i
                + 1] == "0123456789ABCDEF"@[bytes@[i] as int % 16] as u8,
        forall|k: int|
            2 * bytes@.len() <= k < old(out)@.len() ==> #[trigger] final(out)@[k] == old(out)@[k],
{
    let ghost before = out@;
    let n: usize = bytes.len();
    let room: usize = out.len();
    let mut i: usize = 0;
    while i < n
        invariant
            i <= n == bytes@.len(),
            2 * n <= room == before.len(),
            out@.len() == room,
            forall|k: int| 0 <= k < 2 * i ==> out@[k] == hex_upper(bytes@)[k],
            forall|k: int| 2 * i <= k < before.len() ==> out@[k] == before[k],
        decreases n - i,
    {
        let b: u8 = bytes[i];
        out[i * 2] = digit(b / 16);
        out[i * 2 + 1] = digit(b % 16);
        i += 1;
    }
    assert(out@ =~= hex_upper(bytes@) + before.skip(2 * n as int));
    proof {
        law_hex_digits_are_upper_case(bytes@);
    }
}

/// The USB serial number of a board: its flash ID in upper-case hexadecimal, written
/// to `buf`.
pub fn serial_number<'a>(uid: &[u8; 8], buf: &'a mut [u8; 16]) -> (serial: &'a str)
    ensures
        utf8(serial) == hex_upper(uid@),
        final(buf)@ == hex_upper(uid@),
        utf8(serial).len() == 16,
        forall|i: int|
            0 <= i < 8 ==> utf8(serial)[2 * i]
                == "0123456789ABCDEF"@[#[trigger] uid@[i] as int / 16] as u8 && utf8(serial)[2 * i
                + 1] == "0123456789ABCDEF"@[uid@[i] as int % 16] as u8,
{
    hex_encode_upper(uid, buf);
    assert(buf@ =~= hex_upper(uid@));
    proof {
        lemma_hex_is_ascii(uid@);
        law_hex_digits_are_upper_case(uid@);
        lemma_ascii_is_utf8(hex_upper(uid@));
    }
    str_from_utf8(buf).unwrap()
}

} // verus!
