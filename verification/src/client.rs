use vstd::prelude::*;
use crate::frame::BUFFER_SIZE;
use crate::tcptx::{request_kind, StreamError, StreamRequest};
use crate::text::utf8_text;
use vstd::utf8::{decode_utf8, valid_utf8};

verus! {

/// The byte that a ground-station operator's `bell` command sends, twice.
pub const BELL: u8 = 7;

/// The bytes sent for one line that the operator typed: the word `bell`
/// becomes two bell bytes; any other line is sent one byte per character,
/// each character truncated to its low eight bits.
pub open spec fn command_bytes(line: Seq<char>) -> Seq<u8> {
    if line == seq!['b', 'e', 'l', 'l'] {
        seq![BELL, BELL]
    } else {
        line.map_values(|c: char| c as u8)
    }
}

/// Encodes one line typed by the operator into the bytes sent to the ground station.
pub fn encode_line(line: &str) -> (bytes: Vec<u8>)
    ensures
        bytes@ == command_bytes(line@),
{
    let owned = line.to_string();
    let bell = String::from_str("bell");
    proof {
        reveal_strlit("bell");
        broadcast use vstd::string::group_string_axioms;
        assert(bell@ =~= seq!['b', 'e', 'l', 'l']);
    }
    let mut buf: Vec<u8> = Vec::new();
    if owned == bell {
        assert(line@ =~= seq!['b', 'e', 'l', 'l']);
        buf.push(BELL);
        buf.push(BELL);
        assert(buf@ =~= seq![BELL, BELL]);
    } else {
        assert(line@ != seq!['b', 'e', 'l', 'l']);
        for c in it: line.chars()
            invariant
                it.seq() == line@,
                buf@ =~= line@.take(it.index() as int).map_values(|c: char| c as u8),
        {
            proof {
                assert(line@.take(it.index() + 1) =~= line@.take(it.index() as int).push(c));
            }
            buf.push(c as u8);
        }
        assert(line@.take(line@.len() as int) =~= line@);
    }
    buf
}

/// The text part of a message the client received: the bytes after the
/// 128-byte payload, as UTF-8, when they are valid UTF-8.
pub fn received_text(buffer: &[u8]) -> (text: Option<String>)
    requires
        buffer@.len() >= BUFFER_SIZE,
    ensures
        text is Some <==> valid_utf8(buffer@.skip(BUFFER_SIZE as int)),
        text matches Some(t) ==> t@ == decode_utf8(buffer@.skip(BUFFER_SIZE as int)),
{
    let n: usize = buffer.len();
    let rest = &buffer[BUFFER_SIZE..n];
    assert(rest@ =~= buffer@.skip(BUFFER_SIZE as int));
    utf8_text(rest)
}

/// Typing `bell` in the client subscribes the client's host: the ground
/// station reads the bytes it sends as a subscription request.
pub proof fn lemma_bell_subscribes(buffer: [u8; BUFFER_SIZE], len: int)
    requires
        buffer@.take(2) == command_bytes(seq!['b', 'e', 'l', 'l']),
        2 <= len <= BUFFER_SIZE,
    ensures
        request_kind(buffer, len) == Ok::<StreamRequest, StreamError>(StreamRequest::Subscribe),
{
    assert(buffer@.take(2)[0] == buffer@[0]);
    assert(buffer@.take(2)[1] == buffer@[1]);
}

/// Any other nonempty line whose first character does not truncate to the
/// bell byte reaches the ground station as a command to forward.
pub proof fn lemma_line_is_forwarded(line: Seq<char>, buffer: [u8; BUFFER_SIZE])
    requires
        line != seq!['b', 'e', 'l', 'l'],
        0 < line.len() <= BUFFER_SIZE,
        line[0] as u8 != BELL,
        buffer@.take(line.len() as int) == command_bytes(line),
    ensures
        request_kind(buffer, line.len() as int) == Ok::<StreamRequest, StreamError>(
            StreamRequest::Forward(buffer),
        ),
{
    assert(buffer@.take(line.len() as int)[0] == buffer@[0]);
    assert(command_bytes(line)[0] == line[0] as u8);
}

} // verus!
