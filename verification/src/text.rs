//! The fixed texts of the product, and the bytes that they put on the wire.

use vstd::prelude::*;
use vstd::string::is_ascii_spec_bytes;
use vstd::utf8::{decode_utf8, encode_utf8, is_leading_byte_width_1, partial_valid_utf8, valid_utf8};
use vstd::utf8::{decode_utf8_encode_utf8, partial_valid_utf8_extend_ascii_block};

verus! {

/// The product name, as the host lists it and as `info` reports it.
pub const PRODUCT_NAME: &'static str = "Pico USB Console";

/// The greeting that every opening of the port is answered with.
pub const BANNER: &'static str = "[Pico USB Console - escribe 'help']\r\n";

/// The size of one CDC packet, in bytes.
pub const PACKET_SIZE: usize = 64;

/// The UTF-16 units that a USB string descriptor can hold: its length is one byte.
pub const DESCRIPTOR_UNITS: usize = 126;

/// The size of the buffer in which the USB device builds its string descriptors, in bytes.
pub const CONTROL_BUFFER_SIZE: usize = 256;

/// The bytes of a text.
pub open spec fn utf8(s: &str) -> Seq<u8> {
    encode_utf8(s@)
}

/// Whether every byte is an ASCII character.
pub open spec fn ascii(bytes: Seq<u8>) -> bool {
    forall|i: int| 0 <= i < bytes.len() ==> #[trigger] bytes[i] < 0x80
}

/// ASCII bytes are UTF-8.
pub proof fn lemma_ascii_is_utf8(bytes: Seq<u8>)
    requires
        ascii(bytes),
    ensures
        valid_utf8(bytes),
        encode_utf8(decode_utf8(bytes)) == bytes,
{
    assert forall|i: int| 0 <= i < bytes.len() implies #[trigger] is_leading_byte_width_1(
        bytes[i],
    ) by {
        let b: u8 = bytes[i];
        assert(b < 0x80 ==> b & 0x80 == 0) by (bit_vector);
    }
    assert(bytes.subrange(0, 0) =~= Seq::<u8>::empty());
    assert(partial_valid_utf8(bytes, 0));
    partial_valid_utf8_extend_ascii_block(bytes, 0, bytes.len() as int);
    assert(bytes.subrange(0, bytes.len() as int) =~= bytes);
    decode_utf8_encode_utf8(bytes);
}

/// The product name fits into a USB string descriptor, whose units it fills one for
/// one because it is ASCII; and the control buffer holds any descriptor: two bytes of
/// header and two for each unit.
pub proof fn law_product_name_fits_descriptor()
    ensures
        utf8(PRODUCT_NAME).len() == PRODUCT_NAME@.len(),
        utf8(PRODUCT_NAME).len() <= DESCRIPTOR_UNITS,
        2 + 2 * DESCRIPTOR_UNITS <= CONTROL_BUFFER_SIZE,
        utf8(PRODUCT_NAME).len() <= 126,
        CONTROL_BUFFER_SIZE == 256,
{
    reveal_strlit("Pico USB Console");
    is_ascii_spec_bytes(PRODUCT_NAME);
}

/// The banner fits into one CDC packet.
pub proof fn law_banner_fits_packet()
    ensures
        0 < utf8(BANNER).len() <= PACKET_SIZE,
        utf8(BANNER).len() <= 64,
{
    reveal_strlit("[Pico USB Console - escribe 'help']\r\n");
    is_ascii_spec_bytes(BANNER);
}

/// Calls `core::str::from_utf8`. The result is the text whose bytes these are, where
/// they are UTF-8, and `None` where they are not.
#[verifier::external_body]
pub(crate) fn str_from_utf8(bytes: &[u8]) -> (text: Option<&str>)
    ensures
        text is Some <==> valid_utf8(bytes@),
        text matches Some(s) ==> utf8(s) == bytes@,
{
    core::str::from_utf8(bytes).ok()
}

} // verus!
