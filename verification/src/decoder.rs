use vstd::prelude::*;
use vstd::utf8::{decode_utf8, valid_utf8};
use crate::frame::BUFFER_SIZE;
use crate::telemetry::{Telemetry, TELEMETRY_FLOAT_FIELDS};
use crate::text::{push_char, texts, utf8_text};

verus! {

/// The first byte of a payload that carries text.
pub const TEXT_MARKER: u8 = 0x5e;

/// The first byte of a payload that carries a telemetry record.
pub const TELEMETRY_MARKER: u8 = 0x42;

/// Decodes the payload of a serial frame according to its first byte.
pub struct Decoder {}

/// What a payload decodes to.
#[derive(Debug)]
pub enum Decoded {
    /// A text payload, rendered as `^;` followed by the text after its marker.
    Text(String),
    /// A telemetry record, to be rendered with [`Telemetry::serialize`].
    Telemetry(Telemetry),
}

/// Why a payload could not be decoded.
#[derive(Clone, Copy, Debug, PartialEq, Eq)]
pub enum DecodeError {
    /// The first byte names no known payload kind.
    NotImplemented,
}

impl DecodeError {
    /// The error's description.
    pub fn message(&self) -> (m: String)
        ensures
            m@ == "not implemented"@,
    {
        String::from_str("not implemented")
    }
}

/// The rendering of a text payload: `^;` followed by the characters that the
/// payload encodes, without the marker character.
pub open spec fn text_rendering(data: Seq<u8>) -> Seq<char> {
    seq!['^', ';'] + decode_utf8(data).drop_first()
}

/// The text sent on for a decoding result: the rendering of a text payload,
/// the text of a telemetry record with its floating-point fields rendered as
/// `rendered`, and nothing for a payload that could not be decoded.
pub open spec fn processed_rendering(r: Result<Decoded, DecodeError>, rendered: Seq<Seq<char>>) -> Seq<char> {
    match r {
        Ok(Decoded::Text(s)) => s@,
        Ok(Decoded::Telemetry(t)) => t.spec_text(rendered),
        Err(_) => Seq::empty(),
    }
}

/// The rendering of a text payload is `^;` followed by every character the
/// payload decodes to after its marker, whatever the text's length.
pub proof fn lemma_text_rendering(data: Seq<u8>)
    requires
        data.len() > 0,
        valid_utf8(data),
    ensures
        decode_utf8(data).len() >= 1,
        text_rendering(data).len() == decode_utf8(data).len() + 1,
        text_rendering(data)[0] == '^',
        text_rendering(data)[1] == ';',
        forall|i: int| 1 <= i < decode_utf8(data).len() ==> #[trigger] text_rendering(data)[i + 1] == decode_utf8(
            data,
        )[i],
{
    assert(decode_utf8(data).len() >= 1);
}

/// What is sent on for a decoded text payload is the whole decoded text,
/// and nothing for a payload that could not be decoded; a telemetry record
/// gives its text.
pub proof fn lemma_processed_rendering(s: String, t: Telemetry, e: DecodeError, rendered: Seq<Seq<char>>)
    ensures
        processed_rendering(Ok(Decoded::Text(s)), rendered) == s@,
        processed_rendering(Ok(Decoded::Telemetry(t)), rendered) == t.spec_text(rendered),
        processed_rendering(Err(e), rendered).len() == 0,
{
}

impl Decoder {
    /// The text sent on for a decoding result; `rendered` holds the rendered
    /// floating-point fields of a telemetry record, in the order of
    /// [`Telemetry::float_fields`], and is not used otherwise.
    pub fn processed_text(result: &Result<Decoded, DecodeError>, rendered: &Vec<String>) -> (s: String)
        requires
            result matches Ok(Decoded::Telemetry(_)) ==> rendered@.len() == TELEMETRY_FLOAT_FIELDS,
        ensures
            s@ == processed_rendering(*result, texts(rendered@)),
            result matches Ok(Decoded::Text(t)) ==> s@ == t@,
            result matches Ok(Decoded::Telemetry(t)) ==> s@ == t.spec_text(texts(rendered@)),
            result is Err ==> s@.len() == 0,
    {
        match result {
            Ok(Decoded::Text(text)) => text.clone(),
            Ok(Decoded::Telemetry(t)) => t.serialize(rendered),
            Err(_) => String::new(),
        }
    }

    /// Decodes a payload: a text payload (first byte `^`, which must then be
    /// valid UTF-8 as a whole) becomes its rendering, a telemetry payload
    /// (first byte `B`) the record laid out in its first 72 bytes; any other
    /// first byte is not implemented.
    pub fn decode(data: [u8; BUFFER_SIZE]) -> (r: Result<Decoded, DecodeError>)
        requires
            data@[0] == TEXT_MARKER ==> valid_utf8(data@),
        ensures
            data@[0] == TEXT_MARKER ==> (r matches Ok(Decoded::Text(s)) && s@ == text_rendering(data@)),
            data@[0] == TEXT_MARKER ==> (r matches Ok(Decoded::Text(s)) && s@.len() == decode_utf8(data@).len()
                + 1 && s@[0] == '^' && s@[1] == ';' && forall|i: int|
                1 <= i < decode_utf8(data@).len() ==> #[trigger] s@[i + 1] == decode_utf8(data@)[i]),
            data@[0] == TELEMETRY_MARKER ==> (r matches Ok(Decoded::Telemetry(t)) && t.laid_out_in(data@)),
            data@[0] != TEXT_MARKER && data@[0] != TELEMETRY_MARKER ==> r == Err::<Decoded, DecodeError>(
                DecodeError::NotImplemented,
            ),
    {
        if data[0] == TEXT_MARKER {
            match utf8_text(data.as_slice()) {
                Some(text) => {
                    proof {
                        assert(data@.len() > 0);
                        assert(decode_utf8(data@).len() >= 1);
                    }
                    let n = text.as_str().unicode_len();
                    let rest = text.as_str().substring_char(1, n);
                    let mut out = String::new();
                    push_char(&mut out, '^');
                    push_char(&mut out, ';');
                    out.append(rest);
                    assert(out@ =~= text_rendering(data@));
                    proof {
                        lemma_text_rendering(data@);
                    }
                    Ok(Decoded::Text(out))
                },
                None => {
                    proof {
                        assert(false);
                    }
                    Err(DecodeError::NotImplemented)
                },
            }
        } else if data[0] == TELEMETRY_MARKER {
            Ok(Decoded::Telemetry(Telemetry::from_bytes(data.as_slice())))
        } else {
            Err(DecodeError::NotImplemented)
        }
    }
}

} // verus!
