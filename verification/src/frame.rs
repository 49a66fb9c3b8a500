use vstd::prelude::*;
use vstd::string::StringSliceAdditionalSpecFns;

verus! {

/// Number of payload bytes in one record read from the serial port.
pub const BUFFER_SIZE: usize = 128;

/// Number of bytes in a stamped frame: the payload followed by one sequence byte.
pub const FRAME_SIZE: usize = 129;

/// The sequence byte of a stamped frame.
pub open spec fn sequence_of(frame: Seq<u8>) -> u8 {
    frame[BUFFER_SIZE as int]
}

/// The counter that follows `c`: one more, wrapping from 255 back to 0.
pub open spec fn next_sequence(c: u8) -> u8 {
    ((c as int + 1) % 256) as u8
}

/// Stamps frames read from the serial port with a wrapping sequence number,
/// so that consumers polling a shared latest-value buffer can tell a fresh
/// frame from one they have already handled.
pub struct FrameStamper {
    pub counter: u8,
}

impl FrameStamper {
    /// A stamper whose first frame carries sequence number 1.
    pub fn new() -> (s: FrameStamper)
        ensures
            s.counter == 1,
    {
        FrameStamper { counter: 1 }
    }

    /// Writes the current counter into the last byte of `buffer` and advances
    /// the counter by one, wrapping at 256.
    pub fn stamp(&mut self, buffer: [u8; FRAME_SIZE]) -> (stamped: [u8; FRAME_SIZE])
        ensures
            stamped@ == buffer@.update(BUFFER_SIZE as int, old(self).counter),
            sequence_of(stamped@) == old(self).counter,
            final(self).counter == next_sequence(old(self).counter),
    {
        let mut out = buffer;
        out[BUFFER_SIZE] = self.counter;
        self.counter = self.counter.wrapping_add(1);
        out
    }
}


/// The payload of a stamped frame: all bytes but the sequence byte.
pub fn payload(frame: &[u8; FRAME_SIZE]) -> (p: [u8; BUFFER_SIZE])
    ensures
        p@ == frame@.take(BUFFER_SIZE as int),
{
    let mut p = [0u8; BUFFER_SIZE];
    let mut i: usize = 0;
    while i < BUFFER_SIZE
        invariant
            i <= BUFFER_SIZE,
            forall|j: int| 0 <= j < i ==> p@[j] == frame@[j],
        decreases BUFFER_SIZE - i,
    {
        p[i] = frame[i];
        i = i + 1;
    }
    assert(p@ =~= frame@.take(BUFFER_SIZE as int));
    p
}

/// The message sent to a subscriber for a frame: its payload followed by the
/// UTF-8 bytes of the frame's rendered text.
pub open spec fn message_bytes(frame: Seq<u8>, rendered: Seq<u8>) -> Seq<u8> {
    frame.take(BUFFER_SIZE as int) + rendered
}

/// Builds the message sent to a subscriber for `frame`, whose rendered text is `rendered`.
pub fn outgoing_message(frame: &[u8; FRAME_SIZE], rendered: &str) -> (m: Vec<u8>)
    ensures
        m@ == message_bytes(frame@, rendered.spec_bytes()),
        m@.len() == BUFFER_SIZE + rendered.spec_bytes().len(),
        m@.take(BUFFER_SIZE as int) == frame@.take(BUFFER_SIZE as int),
        m@.skip(BUFFER_SIZE as int) == rendered.spec_bytes(),
{
    let mut m: Vec<u8> = Vec::new();
    let mut i: usize = 0;
    while i < BUFFER_SIZE
        invariant
            i <= BUFFER_SIZE,
            m@ =~= frame@.take(i as int),
        decreases BUFFER_SIZE - i,
    {
        m.push(frame[i]);
        i = i + 1;
    }
    let bytes = rendered.as_bytes();
    let n = bytes.len();
    let mut k: usize = 0;
    while k < n
        invariant
            k <= n,
            n == bytes@.len(),
            bytes@ == rendered.spec_bytes(),
            m@ =~= frame@.take(BUFFER_SIZE as int) + bytes@.take(k as int),
        decreases n - k,
    {
        m.push(bytes[k]);
        k = k + 1;
    }
    assert(bytes@.take(n as int) =~= bytes@);
    proof {
        lemma_message_layout(frame@, rendered.spec_bytes());
    }
    m
}

/// The message for a frame is its 128 payload bytes followed by every byte
/// of the rendered text, whatever the text's length.
pub proof fn lemma_message_layout(frame: Seq<u8>, rendered: Seq<u8>)
    requires
        frame.len() == FRAME_SIZE,
    ensures
        message_bytes(frame, rendered).len() == BUFFER_SIZE + rendered.len(),
        forall|i: int| 0 <= i < BUFFER_SIZE ==> #[trigger] message_bytes(frame, rendered)[i] == frame[i],
        forall|i: int|
            0 <= i < rendered.len() ==> #[trigger] message_bytes(frame, rendered)[BUFFER_SIZE + i]
                == rendered[i],
        message_bytes(frame, rendered).take(BUFFER_SIZE as int) == frame.take(BUFFER_SIZE as int),
        message_bytes(frame, rendered).skip(BUFFER_SIZE as int) == rendered,
{
    assert(message_bytes(frame, rendered).take(BUFFER_SIZE as int) =~= frame.take(BUFFER_SIZE as int));
    assert(message_bytes(frame, rendered).skip(BUFFER_SIZE as int) =~= rendered);
}

/// Whether a consumer that last handled sequence number `last` treats `frame` as new.
pub open spec fn is_fresh(last: u8, frame: Seq<u8>) -> bool {
    sequence_of(frame) != last
}

/// The sequence number a consumer remembers after looking at `frame`.
pub open spec fn remembered_after(last: u8, frame: Seq<u8>) -> u8 {
    if is_fresh(last, frame) {
        sequence_of(frame)
    } else {
        last
    }
}

/// The counter after `n` stamps starting from `c`.
pub open spec fn sequence_after(c: u8, n: nat) -> u8
    decreases n,
{
    if n == 0 {
        c
    } else {
        next_sequence(sequence_after(c, (n - 1) as nat))
    }
}

/// Remembers the sequence number of the last frame a consumer handled, so
/// that a frame still sitting in the shared buffer is not handled twice.
pub struct FrameTracker {
    pub last_seen: u8,
}

impl FrameTracker {
    /// A tracker that has handled nothing yet; it remembers sequence number 0.
    pub fn new() -> (t: FrameTracker)
        ensures
            t.last_seen == 0,
    {
        FrameTracker { last_seen: 0 }
    }

    /// Returns whether `frame` carries a sequence number other than the one
    /// last handled; if it does, that number is remembered from now on.
    pub fn observe(&mut self, frame: &[u8; FRAME_SIZE]) -> (fresh: bool)
        ensures
            fresh == is_fresh(old(self).last_seen, frame@),
            final(self).last_seen == remembered_after(old(self).last_seen, frame@),
            fresh == (frame@[BUFFER_SIZE as int] != old(self).last_seen),
            final(self).last_seen == (if fresh { frame@[BUFFER_SIZE as int] } else { old(self).last_seen }),
    {
        let seq = frame[BUFFER_SIZE];
        if seq == self.last_seen {
            false
        } else {
            self.last_seen = seq;
            true
        }
    }
}

/// Stamping a frame keeps its payload: the message sent for a stamped frame
/// starts with exactly the bytes that were read from the serial port.
pub proof fn lemma_stamp_keeps_payload(buffer: Seq<u8>, counter: u8, rendered: Seq<u8>)
    requires
        buffer.len() == FRAME_SIZE,
    ensures
        message_bytes(buffer.update(BUFFER_SIZE as int, counter), rendered).take(BUFFER_SIZE as int)
            == buffer.take(BUFFER_SIZE as int),
        sequence_of(buffer.update(BUFFER_SIZE as int, counter)) == counter,
{
    assert(message_bytes(buffer.update(BUFFER_SIZE as int, counter), rendered).take(BUFFER_SIZE as int)
        =~= buffer.take(BUFFER_SIZE as int));
}

/// A consumer treats a frame as new exactly when its sequence byte (the
/// last byte) differs from the one it remembers, whatever the difference: a
/// consumer that slept through frames still takes the next one it sees. It
/// then remembers that frame's sequence byte, and otherwise keeps its own.
pub proof fn lemma_fresh_iff_sequence_differs(last: u8, frame: Seq<u8>)
    requires
        frame.len() == FRAME_SIZE,
    ensures
        is_fresh(last, frame) <==> frame[BUFFER_SIZE as int] != last,
        frame[BUFFER_SIZE as int] != last ==> remembered_after(last, frame) == frame[BUFFER_SIZE as int],
        frame[BUFFER_SIZE as int] == last ==> remembered_after(last, frame) == last,
{
}

/// A frame that a consumer has just looked at is never fresh to it a second
/// time: whatever it remembered before, the same frame again is stale.
pub proof fn lemma_same_frame_not_fresh_twice(last: u8, frame: Seq<u8>)
    requires
        frame.len() == FRAME_SIZE,
    ensures
        !is_fresh(remembered_after(last, frame), frame),
{
}

/// Two frames stamped one after the other by the same stamper carry different
/// sequence numbers, so a consumer that handled the first treats the second as new.
pub proof fn lemma_next_stamp_is_fresh(counter: u8, first: Seq<u8>, second: Seq<u8>)
    requires
        first.len() == FRAME_SIZE,
        second.len() == FRAME_SIZE,
        sequence_of(first) == counter,
        sequence_of(second) == next_sequence(counter),
    ensures
        is_fresh(remembered_after(counter, first), second),
{
}

/// The first frame of a new stamper is new to a new tracker.
pub proof fn lemma_first_stamp_is_fresh(frame: Seq<u8>)
    requires
        frame.len() == FRAME_SIZE,
        sequence_of(frame) == 1,
    ensures
        is_fresh(0, frame),
{
}

/// After `n` stamps the counter equals the start plus `n`, modulo 256.
pub proof fn lemma_sequence_after(c: u8, n: nat)
    ensures
        sequence_after(c, n) as int == (c as int + n) % 256,
    decreases n,
{
    if n > 0 {
        lemma_sequence_after(c, (n - 1) as nat);
        let prev = sequence_after(c, (n - 1) as nat);
        vstd::arithmetic::div_mod::lemma_add_mod_noop(c as int + (n - 1), 1, 256);
        vstd::arithmetic::div_mod::lemma_small_mod(1, 256);
    }
}

/// Sequence numbers repeat only after 256 stamps: fewer than 256 stamps
/// after a frame, no frame carries its number again.
pub proof fn lemma_sequence_period(c: u8, n: nat)
    requires
        0 < n < 256,
    ensures
        sequence_after(c, n) != c,
{
    lemma_sequence_after(c, n);
    if c as int + n < 256 {
        vstd::arithmetic::div_mod::lemma_small_mod((c as int + n) as nat, 256);
    } else {
        vstd::arithmetic::div_mod::lemma_mod_sub_multiples_vanish(c as int + n, 256);
        vstd::arithmetic::div_mod::lemma_small_mod((c as int + n - 256) as nat, 256);
    }
}

} // verus!
