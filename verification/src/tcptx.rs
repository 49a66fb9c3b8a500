use vstd::prelude::*;
use crate::frame::BUFFER_SIZE;
use crate::text::{decimal, decimal_digits, joined, push_char, texts};

verus! {

/// A request byte that, twice at the start of a message, asks for a subscription.
pub const SUBSCRIBE_BYTE: u8 = 7;

/// The TCP side of the ground station: receives commands and subscription
/// requests, and fans frames out to its subscribers.
pub struct Tcp {}

/// What an incoming TCP message asks for.
#[derive(Clone, Copy, Debug, PartialEq, Eq)]
pub enum StreamRequest {
    /// The sender wants to receive frames from now on.
    Subscribe,
    /// A command to pass on to the serial port.
    Forward([u8; BUFFER_SIZE]),
}

/// The address of the peer of a TCP connection, as far as the logic needs it.
#[derive(Clone, Copy, Debug, PartialEq, Eq)]
pub enum PeerAddress {
    /// An IPv4 peer with its four octets.
    V4([u8; 4]),
    /// An IPv6 peer.
    V6,
}

/// Why an incoming TCP message was not handled.
#[derive(Debug, PartialEq, Eq)]
pub enum StreamError {
    /// The stream could not be read.
    ReadFailed,
    /// More bytes arrived than fit in one payload.
    MessageTooLong,
    /// The subscriber's address is unknown.
    MaskedSubscriber,
    /// The new subscriber could not be handed to the sender.
    PipeFailed,
    /// The subscriber connected over IPv6.
    Ipv6Unsupported,
    /// The message was empty.
    EmptyPacket,
    /// The command could not be handed to the serial port; the text says why.
    SendFailed(String),
}

/// What an incoming message of `len` bytes, read into `buffer`, asks for.
pub open spec fn request_kind(buffer: [u8; BUFFER_SIZE], len: int) -> Result<StreamRequest, StreamError> {
    if len > BUFFER_SIZE {
        Err(StreamError::MessageTooLong)
    } else if buffer@[0] == SUBSCRIBE_BYTE && buffer@[1] == SUBSCRIBE_BYTE {
        Ok(StreamRequest::Subscribe)
    } else if len == 0 {
        Err(StreamError::EmptyPacket)
    } else {
        Ok(StreamRequest::Forward(buffer))
    }
}

/// The dotted-decimal text of an IPv4 address.
pub open spec fn ipv4_rendering(octets: Seq<u8>) -> Seq<char> {
    joined(
        seq![
            decimal_digits(octets[0] as nat),
            decimal_digits(octets[1] as nat),
            decimal_digits(octets[2] as nat),
            decimal_digits(octets[3] as nat),
        ],
        '.',
    )
}

/// The text `host:port` with the port in decimal.
pub open spec fn address_rendering(host: Seq<char>, port: u32) -> Seq<char> {
    host.push(':') + decimal_digits(port as nat)
}

/// The text of the address on which the ground station listens on `port`.
pub open spec fn listen_rendering(port: u32) -> Seq<char> {
    address_rendering(seq!['0', '.', '0', '.', '0', '.', '0'], port)
}

impl StreamError {
    /// The error's description.
    pub fn message(&self) -> (m: String)
        ensures
            m@ == match self {
                StreamError::ReadFailed => "failed to read stream"@,
                StreamError::MessageTooLong => "message too long to recieve"@,
                StreamError::MaskedSubscriber => "masked subscriber address"@,
                StreamError::PipeFailed => "pipe connection failed"@,
                StreamError::Ipv6Unsupported => "this server does not support ipv6 connections"@,
                StreamError::EmptyPacket => "cannot send empty packet"@,
                StreamError::SendFailed(why) => "failed to send via pipe "@ + why@,
            },
    {
        match self {
            StreamError::ReadFailed => String::from_str("failed to read stream"),
            StreamError::MessageTooLong => String::from_str("message too long to recieve"),
            StreamError::MaskedSubscriber => String::from_str("masked subscriber address"),
            StreamError::PipeFailed => String::from_str("pipe connection failed"),
            StreamError::Ipv6Unsupported => String::from_str(
                "this server does not support ipv6 connections",
            ),
            StreamError::EmptyPacket => String::from_str("cannot send empty packet"),
            StreamError::SendFailed(why) => {
                let mut m = String::from_str("failed to send via pipe ");
                m.append(why.as_str());
                m
            },
        }
    }
}

impl Tcp {
    /// Decides what an incoming message of `len` bytes, read into `buffer`,
    /// asks for: too long a message is refused; two subscribe bytes at its
    /// start ask for a subscription; an empty message is refused; anything
    /// else is a command to forward, the whole buffer.
    pub fn classify_request(buffer: &[u8; BUFFER_SIZE], len: usize) -> (r: Result<StreamRequest, StreamError>)
        ensures
            r == request_kind(*buffer, len as int),
    {
        if len > BUFFER_SIZE {
            Err(StreamError::MessageTooLong)
        } else if buffer[0] == SUBSCRIBE_BYTE && buffer[1] == SUBSCRIBE_BYTE {
            Ok(StreamRequest::Subscribe)
        } else if len == 0 {
            Err(StreamError::EmptyPacket)
        } else {
            Ok(StreamRequest::Forward(*buffer))
        }
    }

    /// The IPv4 address to subscribe for a peer: an unknown peer is masked, an
    /// IPv6 peer is not supported.
    pub fn subscriber_address(peer: Option<PeerAddress>) -> (r: Result<[u8; 4], StreamError>)
        ensures
            peer is None ==> r == Err::<[u8; 4], StreamError>(StreamError::MaskedSubscriber),
            peer == Some(PeerAddress::V6) ==> r == Err::<[u8; 4], StreamError>(StreamError::Ipv6Unsupported),
            forall|o: [u8; 4]| peer == Some(PeerAddress::V4(o)) ==> r == Ok::<[u8; 4], StreamError>(o),
    {
        match peer {
            None => Err(StreamError::MaskedSubscriber),
            Some(PeerAddress::V4(o)) => Ok(o),
            Some(PeerAddress::V6) => Err(StreamError::Ipv6Unsupported),
        }
    }
}

/// The dotted-decimal text of an IPv4 address, as `Ipv4Addr` displays it.
pub fn ipv4_text(octets: [u8; 4]) -> (s: String)
    ensures
        s@ == ipv4_rendering(octets@),
{
    let mut s = decimal(octets[0] as u64);
    push_char(&mut s, '.');
    s.append(decimal(octets[1] as u64).as_str());
    push_char(&mut s, '.');
    s.append(decimal(octets[2] as u64).as_str());
    push_char(&mut s, '.');
    s.append(decimal(octets[3] as u64).as_str());
    proof {
        let parts = seq![
            decimal_digits(octets@[0] as nat),
            decimal_digits(octets@[1] as nat),
            decimal_digits(octets@[2] as nat),
            decimal_digits(octets@[3] as nat),
        ];
        assert(parts.drop_last().drop_last().drop_last() =~= seq![parts[0]]);
        assert(parts.drop_last().drop_last().drop_last().drop_last() =~= Seq::<Seq<char>>::empty());
        assert(parts.drop_last().drop_last() =~= seq![parts[0], parts[1]]);
        assert(parts.drop_last() =~= seq![parts[0], parts[1], parts[2]]);
        assert(joined(seq![parts[0]], '.') == parts[0]);
        assert(joined(seq![parts[0], parts[1]], '.') =~= parts[0].push('.') + parts[1]);
        assert(joined(seq![parts[0], parts[1], parts[2]], '.') =~= parts[0].push('.') + parts[1]
            .push('.') + parts[2]);
        assert(s@ =~= ipv4_rendering(octets@));
    }
    s
}

/// The text `host:port`, as `format!("{}:{}", host, port)` writes it.
pub fn socket_address(host: &str, port: u32) -> (s: String)
    ensures
        s@ == address_rendering(host@, port),
{
    let mut s = String::from_str(host);
    push_char(&mut s, ':');
    s.append(decimal(port as u64).as_str());
    s
}

/// The address on which the ground station listens on `port`: all interfaces.
pub fn listen_address(port: u32) -> (s: String)
    ensures
        s@ == listen_rendering(port),
{
    proof {
        reveal_strlit("0.0.0.0");
    }
    let s = socket_address("0.0.0.0", port);
    assert("0.0.0.0"@ =~= seq!['0', '.', '0', '.', '0', '.', '0']);
    s
}

/// The subscribers after `address` subscribes: unchanged when it already is
/// one, else with it added at the end.
pub open spec fn with_subscriber(subscribers: Seq<Seq<char>>, address: Seq<char>) -> Seq<Seq<char>> {
    if subscribers.contains(address) {
        subscribers
    } else {
        subscribers.push(address)
    }
}

/// The subscribers that a list names, each once, in the order of first mention.
pub open spec fn distinct_in_order(list: Seq<Seq<char>>) -> Seq<Seq<char>>
    decreases list.len(),
{
    if list.len() == 0 {
        Seq::empty()
    } else {
        with_subscriber(distinct_in_order(list.drop_last()), list.last())
    }
}

/// The set of hosts that frames are sent to: each host once, in the order
/// they subscribed.
pub struct Subscribers {
    entries: Vec<String>,
}

impl View for Subscribers {
    type V = Seq<Seq<char>>;

    closed spec fn view(&self) -> Seq<Seq<char>> {
        texts(self.entries@)
    }
}

impl Subscribers {
    #[verifier::type_invariant]
    closed spec fn each_once(self) -> bool {
        texts(self.entries@).no_duplicates()
    }

    /// No subscribers.
    pub fn new() -> (s: Subscribers)
        ensures
            s@ == Seq::<Seq<char>>::empty(),
    {
        let s = Subscribers { entries: Vec::new() };
        assert(texts(s.entries@) =~= Seq::<Seq<char>>::empty());
        s
    }

    /// The subscribers that the configuration lists, each once.
    pub fn from_list(list: &Vec<String>) -> (s: Subscribers)
        ensures
            s@ == distinct_in_order(texts(list@)),
    {
        let mut s = Subscribers::new();
        let mut i: usize = 0;
        while i < list.len()
            invariant
                i <= list@.len(),
                s@ == distinct_in_order(texts(list@).take(i as int)),
            decreases list@.len() - i,
        {
            s.insert(list[i].clone());
            assert(texts(list@).take(i + 1).drop_last() =~= texts(list@).take(i as int));
            i = i + 1;
        }
        assert(texts(list@).take(i as int) =~= texts(list@));
        s
    }

    /// Whether `address` is a subscriber.
    pub fn contains(&self, address: &String) -> (found: bool)
        ensures
            found == self@.contains(address@),
    {
        let mut i: usize = 0;
        while i < self.entries.len()
            invariant
                i <= self.entries@.len(),
                forall|j: int| 0 <= j < i ==> self.entries@[j]@ != address@,
            decreases self.entries@.len() - i,
        {
            if self.entries[i] == *address {
                assert(texts(self.entries@)[i as int] == address@);
                return true;
            }
            i = i + 1;
        }
        assert(!texts(self.entries@).contains(address@));
        false
    }

    /// Adds `address` unless it is a subscriber already; returns whether it was added.
    pub fn insert(&mut self, address: String) -> (added: bool)
        ensures
            added == !old(self)@.contains(address@),
            final(self)@ == with_subscriber(old(self)@, address@),
    {
        proof {
            use_type_invariant(&*self);
        }
        if self.contains(&address) {
            false
        } else {
            let ghost before = self.entries@;
            let mut entries = Vec::new();
            std::mem::swap(&mut entries, &mut self.entries);
            entries.push(address);
            assert(texts(entries@) =~= texts(before).push(address@));
            self.entries = entries;
            true
        }
    }

    /// The subscribers, in the order they subscribed.
    pub fn entries(&self) -> (list: &Vec<String>)
        ensures
            texts(list@) == self@,
            self@.no_duplicates(),
    {
        proof {
            use_type_invariant(self);
        }
        &self.entries
    }

    /// Handles a fresh frame: first adds the host that asked to subscribe
    /// since the last frame, if any, then lists the address of every
    /// subscriber at `port`, in subscription order; the frame's message goes
    /// to each of them.
    pub fn destinations(&mut self, new_subscriber: Option<[u8; 4]>, port: u32) -> (d: Vec<String>)
        ensures
            final(self)@ == match new_subscriber {
                Some(ip) => with_subscriber(old(self)@, ipv4_rendering(ip@)),
                None => old(self)@,
            },
            d@.len() == final(self)@.len(),
            forall|i: int|
                0 <= i < d@.len() ==> #[trigger] d@[i]@ == address_rendering(final(self)@[i], port),
    {
        match new_subscriber {
            Some(ip) => {
                self.insert(ipv4_text(ip));
            },
            None => {},
        }
        let mut d: Vec<String> = Vec::new();
        let n = self.entries.len();
        let mut i: usize = 0;
        while i < n
            invariant
                n == self@.len(),
                i <= n,
                d@.len() == i,
                forall|j: int| 0 <= j < i ==> #[trigger] d@[j]@ == address_rendering(self@[j], port),
            decreases n - i,
        {
            let address = socket_address(self.entries[i].as_str(), port);
            let ghost before = d@;
            d.push(address);
            assert(forall|j: int| 0 <= j < i ==> d@[j] == before[j]);
            assert(self@[i as int] == self.entries@[i as int]@);
            i = i + 1;
        }
        d
    }
}

/// A host that subscribes a second time is not added again: subscribing is
/// idempotent, so it still receives each frame once.
pub proof fn lemma_subscribing_twice(subscribers: Seq<Seq<char>>, address: Seq<char>)
    ensures
        with_subscriber(with_subscriber(subscribers, address), address) == with_subscriber(
            subscribers,
            address,
        ),
        with_subscriber(subscribers, address).contains(address),
{
    if !subscribers.contains(address) {
        assert(subscribers.push(address)[subscribers.len() as int] == address);
    }
}

/// Each fresh frame reaches every subscriber exactly once: the destinations
/// are pairwise different addresses, one per subscriber.
pub proof fn lemma_one_delivery_per_subscriber(subscribers: Seq<Seq<char>>, port: u32, i: int, j: int)
    requires
        subscribers.no_duplicates(),
        0 <= i < subscribers.len(),
        0 <= j < subscribers.len(),
        i != j,
    ensures
        address_rendering(subscribers[i], port) != address_rendering(subscribers[j], port),
{
    let a = address_rendering(subscribers[i], port);
    let b = address_rendering(subscribers[j], port);
    if a == b {
        let k = decimal_digits(port as nat).len();
        assert(a.len() == subscribers[i].len() + 1 + k);
        assert(b.len() == subscribers[j].len() + 1 + k);
        assert forall|m: int| 0 <= m < subscribers[i].len() implies subscribers[i][m] == subscribers[j][m] by {
            assert(a[m] == subscribers[i][m]);
            assert(b[m] == subscribers[j][m]);
        }
        assert(subscribers[i] =~= subscribers[j]);
    }
}

} // verus!
