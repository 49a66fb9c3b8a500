use vstd::prelude::*;
use vstd::utf8::{decode_utf8, valid_utf8};
use crate::text::{lossy_utf8, utf8_lossy_text};

verus! {

/// Number of bytes read from the ADS-B receiver at a time.
pub const RAW_BUFFER_SIZE: usize = 128;

/// The byte that starts a raw message of the ADS-B receiver: `*`.
pub const MESSAGE_START: u8 = 0x2a;

/// The byte that ends a raw message: `;`.
pub const MESSAGE_END: u8 = 0x3b;

/// Where the end byte of a long message is looked for.
pub const LONG_END_AT: usize = 30;

/// Number of characters of a long message, after its start byte.
pub const LONG_LENGTH: usize = 28;

/// Number of characters of a short message, after its start byte.
pub const SHORT_LENGTH: usize = 14;

/// What one read from the ADS-B receiver holds.
#[derive(Debug, PartialEq, Eq)]
pub enum RawMessage {
    /// A message: the hexadecimal characters after its start byte.
    Message(String),
    /// Bytes that do not start a message; the text of the whole buffer.
    Unknown(String),
    /// Nothing was read.
    Empty,
}

/// Parses one read of the ADS-B receiver: after a start byte, a long message
/// when the end byte sits at index 30, a short one otherwise; any other
/// nonzero first byte starts no message; a zero first byte means nothing was read.
pub fn parse_raw_message(buffer: &[u8; RAW_BUFFER_SIZE]) -> (m: RawMessage)
    ensures
        buffer@[0] == MESSAGE_START && buffer@[LONG_END_AT as int] == MESSAGE_END ==> (m matches RawMessage::Message(s)
            && s@ == lossy_utf8(buffer@.subrange(1, 1 + LONG_LENGTH))),
        buffer@[0] == MESSAGE_START && buffer@[LONG_END_AT as int] != MESSAGE_END ==> (m matches RawMessage::Message(s)
            && s@ == lossy_utf8(buffer@.subrange(1, 1 + SHORT_LENGTH))),
        buffer@[0] != MESSAGE_START && buffer@[0] != 0 ==> (m matches RawMessage::Unknown(s) && s@ == lossy_utf8(
            buffer@,
        )),
        buffer@[0] == 0 ==> m == RawMessage::Empty,
        buffer@[0] == MESSAGE_START && buffer@[LONG_END_AT as int] == MESSAGE_END && valid_utf8(
            buffer@.subrange(1, 1 + LONG_LENGTH),
        ) ==> (m matches RawMessage::Message(s) && s@ == decode_utf8(buffer@.subrange(1, 1 + LONG_LENGTH))),
        buffer@[0] == MESSAGE_START && buffer@[LONG_END_AT as int] != MESSAGE_END && valid_utf8(
            buffer@.subrange(1, 1 + SHORT_LENGTH),
        ) ==> (m matches RawMessage::Message(s) && s@ == decode_utf8(buffer@.subrange(1, 1 + SHORT_LENGTH))),
        buffer@[0] != MESSAGE_START && buffer@[0] != 0 && valid_utf8(buffer@) ==> (m matches RawMessage::Unknown(
            s,
        ) && s@ == decode_utf8(buffer@)),
{
    if buffer[0] == MESSAGE_START {
        if buffer[LONG_END_AT] == MESSAGE_END {
            RawMessage::Message(utf8_lossy_text(&buffer[1..1 + LONG_LENGTH]))
        } else {
            RawMessage::Message(utf8_lossy_text(&buffer[1..1 + SHORT_LENGTH]))
        }
    } else if buffer[0] != 0 {
        RawMessage::Unknown(utf8_lossy_text(buffer.as_slice()))
    } else {
        RawMessage::Empty
    }
}

} // verus!
