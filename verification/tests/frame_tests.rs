use data_handler::latest::{open_frame_buffer, poll, publish, ReadOutcome, SerialReader};
use data_handler::frame::{
    outgoing_message, payload, FrameStamper, FrameTracker, BUFFER_SIZE, FRAME_SIZE,
};

fn read_buffer(fill: u8) -> [u8; FRAME_SIZE] {
    let mut b = [0u8; FRAME_SIZE];
    for (i, x) in b.iter_mut().enumerate() {
        *x = fill.wrapping_add(i as u8);
    }
    b
}

#[test]
fn stamper_starts_at_one_and_writes_last_byte() {
    let mut s = FrameStamper::new();
    assert_eq!(s.counter, 1);
    let buf = read_buffer(3);
    let out = s.stamp(buf);
    assert_eq!(out[BUFFER_SIZE], 1);
    assert_eq!(&out[..BUFFER_SIZE], &buf[..BUFFER_SIZE]);
    assert_eq!(s.counter, 2);
}

#[test]
fn stamper_wraps_after_255() {
    let mut s = FrameStamper { counter: 255 };
    let out = s.stamp([0u8; FRAME_SIZE]);
    assert_eq!(out[BUFFER_SIZE], 255);
    assert_eq!(s.counter, 0);
}

#[test]
fn sequence_repeats_only_after_256_stamps() {
    let mut s = FrameStamper::new();
    let first = s.stamp([0u8; FRAME_SIZE])[BUFFER_SIZE];
    let mut seen = vec![first];
    for _ in 1..256 {
        let seq = s.stamp([0u8; FRAME_SIZE])[BUFFER_SIZE];
        assert!(!seen.contains(&seq));
        seen.push(seq);
    }
    assert_eq!(s.stamp([0u8; FRAME_SIZE])[BUFFER_SIZE], first);
}

#[test]
fn tracker_skips_a_frame_it_has_seen() {
    let mut t = FrameTracker::new();
    assert_eq!(t.last_seen, 0);
    let mut s = FrameStamper::new();
    let f1 = s.stamp(read_buffer(0));
    assert!(t.observe(&f1));
    assert_eq!(t.last_seen, 1);
    assert!(!t.observe(&f1));
    assert_eq!(t.last_seen, 1);
    let f2 = s.stamp(read_buffer(9));
    assert!(t.observe(&f2));
    assert_eq!(t.last_seen, 2);
}

#[test]
fn tracker_ignores_unstamped_buffer() {
    let mut t = FrameTracker::new();
    assert!(!t.observe(&[0u8; FRAME_SIZE]));
}

#[test]
fn payload_drops_the_sequence_byte() {
    let f = read_buffer(5);
    let p = payload(&f);
    assert_eq!(p.len(), BUFFER_SIZE);
    assert_eq!(&p[..], &f[..BUFFER_SIZE]);
}

#[test]
fn message_is_payload_then_text_bytes() {
    let mut f = read_buffer(1);
    f[BUFFER_SIZE] = 42;
    let m = outgoing_message(&f, "ok é");
    assert_eq!(m.len(), BUFFER_SIZE + 5);
    assert_eq!(&m[..BUFFER_SIZE], &f[..BUFFER_SIZE]);
    assert_eq!(&m[BUFFER_SIZE..], &[b'o', b'k', b' ', 0xc3, 0xa9]);
    let empty = outgoing_message(&f, "");
    assert_eq!(empty, f[..BUFFER_SIZE].to_vec());
}

#[test]
fn poll_returns_each_published_frame_once() {
    let (mut input, mut output) = open_frame_buffer();
    let mut tracker = FrameTracker::new();
    assert_eq!(poll(&mut output, &mut tracker), ([0u8; FRAME_SIZE], false));
    let mut stamper = FrameStamper::new();
    let stamped = publish(&mut input, &mut stamper, read_buffer(4));
    assert_eq!(stamped[BUFFER_SIZE], 1);
    assert_eq!(stamper.counter, 2);
    assert_eq!(poll(&mut output, &mut tracker), (stamped, true));
    assert_eq!(tracker.last_seen, 1);
    assert_eq!(poll(&mut output, &mut tracker), (stamped, false));
    let next = publish(&mut input, &mut stamper, read_buffer(8));
    assert_eq!(poll(&mut output, &mut tracker), (next, true));
    assert_eq!(tracker.last_seen, 2);
}

#[test]
fn serial_reader_publishes_successful_reads_in_order() {
    let (mut input, mut output) = open_frame_buffer();
    assert_eq!(*output.read(), [0u8; FRAME_SIZE]);
    let mut reader = SerialReader::new();
    let first = reader.handle(&mut input, ReadOutcome::Received(vec![b'^', b'a', b'b'])).unwrap();
    let mut expected = [0u8; FRAME_SIZE];
    expected[..3].copy_from_slice(b"^ab");
    expected[BUFFER_SIZE] = 1;
    assert_eq!(first, expected);
    assert_eq!(*output.read(), expected);
    assert_eq!(reader.handle(&mut input, ReadOutcome::TimedOut), None);
    assert_eq!(reader.handle(&mut input, ReadOutcome::Failed), None);
    assert_eq!(*output.read(), expected);
    let second = reader.handle(&mut input, ReadOutcome::Received(vec![9u8; FRAME_SIZE])).unwrap();
    let mut full = [9u8; FRAME_SIZE];
    full[BUFFER_SIZE] = 2;
    assert_eq!(second, full);
    assert_eq!(*output.read(), full);
    for k in 3..=300u32 {
        let f = reader.handle(&mut input, ReadOutcome::Received(Vec::new())).unwrap();
        assert_eq!(f[BUFFER_SIZE] as u32, k % 256);
        assert!(f[..BUFFER_SIZE].iter().all(|b| *b == 0));
    }
}
