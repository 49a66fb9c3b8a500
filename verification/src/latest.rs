use vstd::prelude::*;
use spmc_buffer::{SPMCBufferInput, SPMCBufferOutput};
use crate::frame::{
    is_fresh, lemma_sequence_after, next_sequence, remembered_after, sequence_after, sequence_of, FrameStamper,
    FrameTracker, BUFFER_SIZE, FRAME_SIZE,
};

verus! {

#[verifier::external_type_specification]
#[verifier::external_body]
#[verifier::reject_recursive_types(T)]
pub struct ExSPMCBufferInput<T: Send + Sync>(SPMCBufferInput<T>);

#[verifier::external_type_specification]
#[verifier::external_body]
#[verifier::reject_recursive_types(T)]
pub struct ExSPMCBufferOutput<T: Send + Sync>(SPMCBufferOutput<T>);

/// The frame most recently written through this producer end of a
/// latest-value buffer.
pub uninterp spec fn last_written(input: SPMCBufferInput<[u8; FRAME_SIZE]>) -> Seq<u8>;

/// Whether a producer end and a consumer end belong to the same
/// latest-value buffer, so that the consumer reads what the producer writes.
pub uninterp spec fn paired(
    input: SPMCBufferInput<[u8; FRAME_SIZE]>,
    output: SPMCBufferOutput<[u8; FRAME_SIZE]>,
) -> bool;

/// Publishes a frame as the latest value: `SPMCBufferInput::write`. The
/// contract claims what the source shows: the written value becomes the one
/// most recently written through this producer end, and the producer end
/// stays attached to the same buffer. When readers see the value depends on
/// other threads and is left unsaid.
#[verifier::external_body]
fn publish_latest(input: &mut SPMCBufferInput<[u8; FRAME_SIZE]>, frame: [u8; FRAME_SIZE])
    ensures
        last_written(*final(input)) == frame@,
        forall|o: SPMCBufferOutput<[u8; FRAME_SIZE]>| #[trigger]
            paired(*old(input), o) ==> paired(*final(input), o),
{
    input.write(frame);
}

/// Reads the latest published frame: `SPMCBufferOutput::read`. Nothing is
/// stated of the frame: it is whatever the writer published last, which
/// depends on other threads. The consumer end stays attached to the same buffer.
#[verifier::external_body]
fn read_latest(output: &mut SPMCBufferOutput<[u8; FRAME_SIZE]>) -> (frame: [u8; FRAME_SIZE])
    ensures
        forall|i: SPMCBufferInput<[u8; FRAME_SIZE]>| #[trigger]
            paired(i, *old(output)) ==> paired(i, *final(output)),
{
    *output.read()
}

/// Stamps a frame read from the serial port and publishes it to all consumers.
pub fn publish(
    input: &mut SPMCBufferInput<[u8; FRAME_SIZE]>,
    stamper: &mut FrameStamper,
    buffer: [u8; FRAME_SIZE],
) -> (stamped: [u8; FRAME_SIZE])
    ensures
        stamped@ == buffer@.update(BUFFER_SIZE as int, old(stamper).counter),
        final(stamper).counter == next_sequence(old(stamper).counter),
        last_written(*final(input)) == stamped@,
        forall|o: SPMCBufferOutput<[u8; FRAME_SIZE]>| #[trigger]
            paired(*old(input), o) ==> paired(*final(input), o),
{
    let stamped = stamper.stamp(buffer);
    publish_latest(input, stamped);
    stamped
}

/// Looks at the latest published frame: returns it, with whether the
/// consumer has not handled it yet; the tracker then remembers its sequence
/// number, and is unchanged otherwise.
pub fn poll(output: &mut SPMCBufferOutput<[u8; FRAME_SIZE]>, tracker: &mut FrameTracker) -> (r: (
    [u8; FRAME_SIZE],
    bool,
))
    ensures
        r.1 == is_fresh(old(tracker).last_seen, r.0@),
        r.1 == (r.0@[BUFFER_SIZE as int] != old(tracker).last_seen),
        final(tracker).last_seen == remembered_after(old(tracker).last_seen, r.0@),
        forall|i: SPMCBufferInput<[u8; FRAME_SIZE]>| #[trigger]
            paired(i, *old(output)) ==> paired(i, *final(output)),
{
    let frame = read_latest(output);
    let fresh = tracker.observe(&frame);
    (frame, fresh)
}

/// Opens a latest-value buffer: `SPMCBuffer::new` with `read_buffers` read
/// buffers and `initial` as the first value, split into its producer and
/// consumer ends. The contract claims what the source shows: it panics
/// unless there are at most 62 read buffers; the two ends share one buffer;
/// before any write the latest value is `initial`.
#[verifier::external_body]
fn open_latest(read_buffers: usize, initial: [u8; FRAME_SIZE]) -> (ends: (
    SPMCBufferInput<[u8; FRAME_SIZE]>,
    SPMCBufferOutput<[u8; FRAME_SIZE]>,
))
    requires
        read_buffers <= 62,
    ensures
        last_written(ends.0) == initial@,
        paired(ends.0, ends.1),
{
    spmc_buffer::SPMCBuffer::new(read_buffers, initial).split()
}

/// Number of read buffers of the frame buffer.
pub const FRAME_READ_BUFFERS: usize = 10;

/// Opens the buffer that carries the latest frame from the serial reader to
/// all consumers; until the first frame is published it holds the all-zero
/// frame.
pub fn open_frame_buffer() -> (ends: (SPMCBufferInput<[u8; FRAME_SIZE]>, SPMCBufferOutput<[u8; FRAME_SIZE]>))
    ensures
        last_written(ends.0) == Seq::new(FRAME_SIZE as nat, |i: int| 0u8),
        paired(ends.0, ends.1),
{
    let ends = open_latest(FRAME_READ_BUFFERS, [0u8; FRAME_SIZE]);
    assert(last_written(ends.0) =~= Seq::new(FRAME_SIZE as nat, |i: int| 0u8));
    ends
}

/// What one read from the serial port gave.
#[derive(Debug)]
pub enum ReadOutcome {
    /// These bytes arrived.
    Received(Vec<u8>),
    /// Nothing arrived before the port's timeout.
    TimedOut,
    /// The read failed.
    Failed,
}

/// The bytes a read gave, if it gave any.
pub open spec fn bytes_of(outcome: ReadOutcome) -> Option<Seq<u8>> {
    match outcome {
        ReadOutcome::Received(d) => Some(d@),
        _ => None,
    }
}

/// The frame published for the bytes `d` of one read, stamped with `counter`:
/// the bytes at the start of a zeroed frame, the counter in its last byte.
pub open spec fn read_frame(d: Seq<u8>, counter: u8) -> Seq<u8> {
    Seq::new(
        FRAME_SIZE as nat,
        |i: int|
            if i == BUFFER_SIZE {
                counter
            } else if i < d.len() {
                d[i]
            } else {
                0u8
            },
    )
}

/// The bytes of the successful reads among `reads`, in order.
pub open spec fn received_chunks(reads: Seq<Option<Seq<u8>>>) -> Seq<Seq<u8>>
    decreases reads.len(),
{
    if reads.len() == 0 {
        Seq::empty()
    } else {
        let before = received_chunks(reads.drop_last());
        match reads.last() {
            Some(d) => before.push(d),
            None => before,
        }
    }
}

/// The frames published for the reads `reads`: one per successful read, the
/// k-th (counting from 0) stamped with the counter after k stamps from 1.
pub open spec fn published_frames(reads: Seq<Option<Seq<u8>>>) -> Seq<Seq<u8>> {
    let chunks = received_chunks(reads);
    Seq::new(chunks.len(), |k: int| read_frame(chunks[k], sequence_after(1, k as nat)))
}

/// The serial reader's side of the latest-value buffer: every successful read
/// of the serial port is stamped and published; a timeout or failed read
/// publishes nothing.
pub struct SerialReader {
    stamper: FrameStamper,
    reads: Ghost<Seq<Option<Seq<u8>>>>,
}

impl SerialReader {
    /// The counter is the one that follows as many stamps from 1 as there
    /// were successful reads.
    #[verifier::type_invariant]
    closed spec fn counts_reads(self) -> bool {
        self.stamper.counter == sequence_after(1, received_chunks(self.reads@).len())
    }

    /// The reads handled so far: the bytes of each, or nothing for a timeout or failure.
    pub closed spec fn reads(self) -> Seq<Option<Seq<u8>>> {
        self.reads@
    }

    /// A reader that has handled no read yet; its first frame carries sequence number 1.
    pub fn new() -> (r: SerialReader)
        ensures
            r.reads() == Seq::<Option<Seq<u8>>>::empty(),
    {
        SerialReader { stamper: FrameStamper::new(), reads: Ghost(Seq::empty()) }
    }

    /// Handles one read of the serial port: the bytes of a successful read
    /// are published through `input` as the next frame, which is returned;
    /// otherwise nothing is published and `input` is left as it was.
    pub fn handle(&mut self, input: &mut SPMCBufferInput<[u8; FRAME_SIZE]>, outcome: ReadOutcome) -> (published: Option<
        [u8; FRAME_SIZE],
    >)
        requires
            outcome matches ReadOutcome::Received(d) ==> d@.len() <= FRAME_SIZE,
        ensures
            final(self).reads() == old(self).reads().push(bytes_of(outcome)),
            bytes_of(outcome) is Some ==> (published matches Some(f) && f@ == published_frames(
                final(self).reads(),
            ).last() && last_written(*final(input)) == f@),
            bytes_of(outcome) is None ==> published is None && *final(input) == *old(input),
            forall|o: SPMCBufferOutput<[u8; FRAME_SIZE]>| #[trigger]
                paired(*old(input), o) ==> paired(*final(input), o),
    {
        proof {
            use_type_invariant(&*self);
        }
        let ghost reads = self.reads@.push(bytes_of(outcome));
        assert(reads.drop_last() =~= self.reads@);
        match outcome {
            ReadOutcome::Received(d) => {
                let mut buffer = [0u8; FRAME_SIZE];
                let mut i: usize = 0;
                while i < d.len()
                    invariant
                        d@.len() <= FRAME_SIZE,
                        i <= d@.len(),
                        forall|j: int| 0 <= j < i ==> buffer@[j] == d@[j],
                        forall|j: int| i <= j < FRAME_SIZE ==> buffer@[j] == 0,
                    decreases d@.len() - i,
                {
                    buffer[i] = d[i];
                    i = i + 1;
                }
                let ghost chunks = received_chunks(self.reads@);
                let mut stamper = FrameStamper { counter: self.stamper.counter };
                let stamped = publish(input, &mut stamper, buffer);
                proof {
                    assert(received_chunks(reads) == chunks.push(d@));
                    assert(stamped@ =~= read_frame(d@, self.stamper.counter));
                    assert(published_frames(reads).last() == read_frame(d@, sequence_after(1, chunks.len())));
                }
                *self = SerialReader { stamper, reads: Ghost(reads) };
                Some(stamped)
            },
            _ => {
                proof {
                    assert(received_chunks(reads) == received_chunks(self.reads@));
                }
                *self = SerialReader { stamper: FrameStamper { counter: self.stamper.counter }, reads: Ghost(reads) };
                None
            },
        }
    }
}

/// The k-th frame that the serial reader publishes (counting from 0) holds
/// the bytes of the k-th successful read, zeros after them up to the
/// sequence byte, and k + 1 modulo 256 as its sequence byte; timeouts and
/// failed reads publish nothing.
pub proof fn lemma_published_frame(reads: Seq<Option<Seq<u8>>>, k: int)
    requires
        0 <= k < received_chunks(reads).len(),
    ensures
        published_frames(reads).len() == received_chunks(reads).len(),
        published_frames(reads)[k].len() == FRAME_SIZE,
        sequence_of(published_frames(reads)[k]) as int == (k + 1) % 256,
        forall|i: int|
            0 <= i < BUFFER_SIZE && i < received_chunks(reads)[k].len() ==> published_frames(reads)[k][i]
                == received_chunks(reads)[k][i],
        forall|i: int|
            0 <= i < BUFFER_SIZE && received_chunks(reads)[k].len() <= i ==> published_frames(reads)[k][i]
                == 0,
{
    lemma_sequence_after(1, k as nat);
}

} // verus!
