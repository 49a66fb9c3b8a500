use data_handler::client::encode_line;
use data_handler::frame::BUFFER_SIZE;
use data_handler::tcptx::{
    ipv4_text, listen_address, socket_address, PeerAddress, StreamError, StreamRequest,
    Subscribers, Tcp,
};

#[test]
fn bell_line_sends_two_bell_bytes() {
    assert_eq!(encode_line("bell"), vec![7, 7]);
    assert_eq!(encode_line("bell "), b"bell ".to_vec());
    assert_eq!(encode_line("abc"), vec![97, 98, 99]);
    assert_eq!(encode_line(""), Vec::<u8>::new());
    assert_eq!(encode_line("\u{142}x"), vec![0x42, b'x']);
}

#[test]
fn classify_subscription_command_and_errors() {
    let mut b = [0u8; BUFFER_SIZE];
    b[0] = 7;
    b[1] = 7;
    assert_eq!(Tcp::classify_request(&b, 2), Ok(StreamRequest::Subscribe));
    assert_eq!(Tcp::classify_request(&b, BUFFER_SIZE + 1), Err(StreamError::MessageTooLong));
    let empty = [0u8; BUFFER_SIZE];
    assert_eq!(Tcp::classify_request(&empty, 0), Err(StreamError::EmptyPacket));
    let mut c = [0u8; BUFFER_SIZE];
    c[0] = 7;
    c[1] = b'a';
    assert_eq!(Tcp::classify_request(&c, 2), Ok(StreamRequest::Forward(c)));
    assert_eq!(Tcp::classify_request(&c, BUFFER_SIZE), Ok(StreamRequest::Forward(c)));
}

#[test]
fn subscriber_address_of_peers() {
    assert_eq!(Tcp::subscriber_address(None), Err(StreamError::MaskedSubscriber));
    assert_eq!(Tcp::subscriber_address(Some(PeerAddress::V6)), Err(StreamError::Ipv6Unsupported));
    assert_eq!(Tcp::subscriber_address(Some(PeerAddress::V4([10, 0, 0, 2]))), Ok([10, 0, 0, 2]));
}

#[test]
fn stream_error_messages() {
    assert_eq!(StreamError::ReadFailed.message(), "failed to read stream");
    assert_eq!(StreamError::MessageTooLong.message(), "message too long to recieve");
    assert_eq!(StreamError::MaskedSubscriber.message(), "masked subscriber address");
    assert_eq!(StreamError::PipeFailed.message(), "pipe connection failed");
    assert_eq!(
        StreamError::Ipv6Unsupported.message(),
        "this server does not support ipv6 connections"
    );
    assert_eq!(StreamError::EmptyPacket.message(), "cannot send empty packet");
    assert_eq!(
        StreamError::SendFailed("closed".to_string()).message(),
        "failed to send via pipe closed"
    );
}

#[test]
fn addresses_as_text() {
    assert_eq!(ipv4_text([192, 168, 0, 1]), "192.168.0.1");
    assert_eq!(ipv4_text([0, 0, 0, 0]), "0.0.0.0");
    assert_eq!(ipv4_text([255, 10, 100, 7]), "255.10.100.7");
    assert_eq!(socket_address("10.0.0.2", 2008), "10.0.0.2:2008");
    assert_eq!(listen_address(2009), "0.0.0.0:2009");
}

#[test]
fn subscribers_hold_each_address_once() {
    let list = vec!["10.0.0.1".to_string(), "10.0.0.2".to_string(), "10.0.0.1".to_string()];
    let mut s = Subscribers::from_list(&list);
    assert_eq!(s.entries(), &vec!["10.0.0.1".to_string(), "10.0.0.2".to_string()]);
    assert!(s.contains(&"10.0.0.2".to_string()));
    assert!(!s.contains(&"10.0.0.3".to_string()));
    assert!(s.insert("10.0.0.3".to_string()));
    assert!(!s.insert("10.0.0.3".to_string()));
    assert_eq!(s.entries().len(), 3);
    assert!(Subscribers::new().entries().is_empty());
}

#[test]
fn destinations_reach_each_subscriber_once() {
    let mut s = Subscribers::from_list(&vec!["10.0.0.1".to_string()]);
    let d = s.destinations(Some([192, 168, 1, 20]), 2008);
    assert_eq!(d, vec!["10.0.0.1:2008".to_string(), "192.168.1.20:2008".to_string()]);
    let again = s.destinations(Some([192, 168, 1, 20]), 2008);
    assert_eq!(again, d);
    let none = s.destinations(None, 1);
    assert_eq!(none, vec!["10.0.0.1:1".to_string(), "192.168.1.20:1".to_string()]);
}

#[test]
fn bell_typed_in_client_is_a_subscription_request() {
    let mut buffer = [0u8; BUFFER_SIZE];
    let sent = encode_line("bell");
    buffer[..sent.len()].copy_from_slice(&sent);
    assert_eq!(Tcp::classify_request(&buffer, sent.len()), Ok(StreamRequest::Subscribe));
    let mut other = [0u8; BUFFER_SIZE];
    let line = encode_line("ping");
    other[..line.len()].copy_from_slice(&line);
    assert_eq!(Tcp::classify_request(&other, line.len()), Ok(StreamRequest::Forward(other)));
}

#[test]
fn received_text_is_the_part_after_the_payload() {
    let mut padded = vec![0u8; 140];
    padded[BUFFER_SIZE..BUFFER_SIZE + 3].copy_from_slice(b"^;a");
    assert_eq!(
        data_handler::client::received_text(&padded).unwrap(),
        "^;a\0\0\0\0\0\0\0\0\0"
    );
    let mut ok = vec![0u8; BUFFER_SIZE];
    ok.extend_from_slice("B;1;ż".as_bytes());
    assert_eq!(data_handler::client::received_text(&ok).unwrap(), "B;1;ż");
    let mut bad = vec![0u8; BUFFER_SIZE];
    bad.push(0xff);
    assert_eq!(data_handler::client::received_text(&bad), None);
    assert_eq!(data_handler::client::received_text(&[0u8; BUFFER_SIZE]).unwrap(), "");
}
