//! What a console on the serial line sends back for what it receives.
use vstd::prelude::*;
use vstd::utf8::encode_scalar;

verus! {

/// The backspace character.
pub const BACKSPACE: u8 = 8;

/// The line feed character.
pub const LINE_FEED: u8 = 10;

/// The carriage return character.
pub const CARRIAGE_RETURN: u8 = 13;

/// The space character.
pub const SPACE: u8 = 32;

/// The bytes that echo a received byte.
///
/// A backspace rubs out the last character on the terminal: step back,
/// overwrite with a space, step back again. A line feed or a carriage return
/// starts a new line. Any other byte is taken as the character with that
/// code point and comes back in its UTF-8 encoding, which is the byte itself
/// up to 0x7f and two bytes above.
pub open spec fn echo_of(byte: u8) -> Seq<u8> {
    if byte == BACKSPACE {
        seq![BACKSPACE, SPACE, BACKSPACE]
    } else if byte == LINE_FEED || byte == CARRIAGE_RETURN {
        seq![CARRIAGE_RETURN, LINE_FEED]
    } else {
        encode_scalar(byte as u32)
    }
}

/// Computes the bytes that echo a received byte.
pub fn echo(byte: u8) -> (reply: Vec<u8>)
    ensures
        reply@ == echo_of(byte),
{
    if byte == BACKSPACE {
        vec![BACKSPACE, SPACE, BACKSPACE]
    } else if byte == LINE_FEED || byte == CARRIAGE_RETURN {
        vec![CARRIAGE_RETURN, LINE_FEED]
    } else if byte < 0x80 {
        assert((byte as u32 & 0x7f) as u8 == byte) by (bit_vector)
            requires
                byte < 0x80,
        ;
        vec![byte]
    } else {
        let leading: u8 = 0xc0 | (byte >> 6);
        let continuation: u8 = 0x80 | (byte & 0x3f);
        assert(0xc0u8 | (((byte as u32) >> 6) & 0x1f) as u8 == 0xc0u8 | (byte >> 6))
            by (bit_vector);
        assert(0x80u8 | ((byte as u32) & 0x3f) as u8 == 0x80u8 | (byte & 0x3f)) by (bit_vector);
        vec![leading, continuation]
    }
}

} // verus!
