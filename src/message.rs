//! The message envelope: the unit exchanged over the broadcast topic, and its
//! binary encoding.
//!
//! Layout: a 1-byte kind, a 1-byte payload presence flag, when present a
//! 4-byte little-endian length and the payload bytes, then the 8-byte
//! little-endian timestamp.

use crate::wire::{
    lemma_read_encoded_bytes, lemma_read_encoded_u64, read_bytes, read_u64, spec_encode_bytes,
    spec_read_bytes, spec_read_u64, write_bytes, write_u64, DecodeError,
};
use vstd::bytes::*;
use vstd::prelude::*;

verus! {

/// The kind of an envelope.
#[derive(Clone, Copy, Debug, PartialEq, Eq, Structural)]
pub enum MessageType {
    /// The payload is an encoded ledger instruction.
    PushInstruction,
    /// The payload is the sender's ledger length, 8 bytes little-endian.
    AnnounceIxsLen,
    /// No message; an internal default that is never sent on purpose.
    NoMessage,
}

impl MessageType {
    /// The discriminant written on the wire.
    pub open spec fn tag(self) -> u8 {
        match self {
            MessageType::PushInstruction => 0,
            MessageType::AnnounceIxsLen => 1,
            MessageType::NoMessage => 2,
        }
    }
}

/// The kind that a discriminant stands for, if any.
pub open spec fn message_type_of_tag(t: u8) -> Option<MessageType> {
    if t == 0 {
        Some(MessageType::PushInstruction)
    } else if t == 1 {
        Some(MessageType::AnnounceIxsLen)
    } else if t == 2 {
        Some(MessageType::NoMessage)
    } else {
        None
    }
}

/// An envelope: its kind, an optional payload, and the time it was made in
/// seconds since the Unix epoch.
#[derive(Clone, Debug, PartialEq, Eq)]
pub struct Message {
    pub message_type: MessageType,
    pub message_data: Option<Vec<u8>>,
    pub timestamp: u64,
}

/// The mathematical value of an envelope.
pub struct MessageView {
    pub message_type: MessageType,
    pub message_data: Option<Seq<u8>>,
    pub timestamp: u64,
}

impl View for Message {
    type V = MessageView;

    open spec fn view(&self) -> MessageView {
        MessageView {
            message_type: self.message_type,
            message_data: match self.message_data {
                Some(d) => Some(d@),
                None => None,
            },
            timestamp: self.timestamp,
        }
    }
}

impl MessageView {
    /// An envelope can be encoded: its payload length fits the 4-byte prefix.
    pub open spec fn wf(self) -> bool {
        match self.message_data {
            Some(d) => d.len() <= u32::MAX,
            None => true,
        }
    }
}

/// The encoding of the optional payload: its presence flag, then, when
/// present, the length-prefixed bytes.
pub open spec fn spec_encode_payload(d: Option<Seq<u8>>) -> Seq<u8> {
    match d {
        Some(b) => seq![1u8] + spec_encode_bytes(b),
        None => seq![0u8],
    }
}

/// The bytes of an envelope on the wire.
pub open spec fn spec_encode_message(m: MessageView) -> Seq<u8> {
    seq![m.message_type.tag()] + spec_encode_payload(m.message_data) + spec_u64_to_le_bytes(
        m.timestamp,
    )
}

/// Reads the optional payload that starts at `pos`.
pub open spec fn spec_read_payload(b: Seq<u8>, pos: int) -> Result<
    (Option<Seq<u8>>, int),
    DecodeError,
> {
    if b.len() - pos < 1 {
        Err(DecodeError::UnexpectedEnd)
    } else if b[pos] == 0 {
        Ok((None, pos + 1))
    } else if b[pos] == 1 {
        match spec_read_bytes(b, pos + 1) {
            Ok((d, p)) => Ok((Some(d), p)),
            Err(e) => Err(e),
        }
    } else {
        Err(DecodeError::InvalidPresenceFlag)
    }
}

/// What decoding a byte sequence as an envelope gives.
pub open spec fn spec_decode_message(b: Seq<u8>) -> Result<MessageView, DecodeError> {
    if b.len() < 1 {
        Err(DecodeError::UnexpectedEnd)
    } else {
        match message_type_of_tag(b[0]) {
            None => Err(DecodeError::UnknownTag),
            Some(t) => match spec_read_payload(b, 1) {
                Err(e) => Err(e),
                Ok((d, p)) => match spec_read_u64(b, p) {
                    Err(e) => Err(e),
                    Ok((ts, q)) => if q < b.len() {
                        Err(DecodeError::TrailingBytes)
                    } else {
                        Ok(MessageView { message_type: t, message_data: d, timestamp: ts })
                    },
                },
            },
        }
    }
}

/// The fewest bytes an envelope can occupy: kind, flag and timestamp.
pub const MIN_MESSAGE_LEN: usize = 10;


impl MessageType {
    /// The discriminant written on the wire.
    pub fn tag_byte(&self) -> (r: u8)
        ensures
            r == self.tag(),
    {
        match self {
            MessageType::PushInstruction => 0,
            MessageType::AnnounceIxsLen => 1,
            MessageType::NoMessage => 2,
        }
    }

    /// The kind that a discriminant stands for, if any.
    pub fn from_tag(t: u8) -> (r: Option<MessageType>)
        ensures
            r == message_type_of_tag(t),
    {
        if t == 0 {
            Some(MessageType::PushInstruction)
        } else if t == 1 {
            Some(MessageType::AnnounceIxsLen)
        } else if t == 2 {
            Some(MessageType::NoMessage)
        } else {
            None
        }
    }
}

/// The current time in whole seconds since the Unix epoch.
///
/// Relies on chrono's `From<SystemTime> for DateTime<Utc>` and
/// `DateTime::timestamp`. A clock set before the epoch gives a negative count
/// rather than a failure, and the cast to `u64` wraps such a count to a value
/// near `u64::MAX`. The value depends on the clock, so nothing is promised of
/// it.
#[verifier::external_body]
pub fn get_unix_timestamp_secs() -> (r: u64) {
    chrono::DateTime::<chrono::Utc>::from(std::time::SystemTime::now()).timestamp() as u64
}

impl Message {
    /// An envelope of the given kind and payload, stamped with `timestamp`.
    pub fn new_at(message_type: MessageType, message_data: Vec<u8>, timestamp: u64) -> (r: Message)
        ensures
            r@ == (MessageView {
                message_type,
                message_data: Some(message_data@),
                timestamp,
            }),
    {
        Message { message_type, message_data: Some(message_data), timestamp }
    }

    /// An envelope of the given kind and payload, stamped with the current time.
    pub fn new(message_type: MessageType, message_data: Vec<u8>) -> (r: Message)
        ensures
            r.message_type == message_type,
            r@.message_data == Some(message_data@),
    {
        let timestamp = get_unix_timestamp_secs();
        Message::new_at(message_type, message_data, timestamp)
    }

    /// The placeholder envelope: no kind, no payload, stamped with `timestamp`.
    pub fn default_at(timestamp: u64) -> (r: Message)
        ensures
            r@ == (MessageView { message_type: MessageType::NoMessage, message_data: None, timestamp }),
    {
        Message { message_type: MessageType::NoMessage, message_data: None, timestamp }
    }

    /// The placeholder envelope: no kind, no payload, stamped with the current
    /// time.
    pub fn default() -> (r: Message)
        ensures
            r.message_type == MessageType::NoMessage,
            r.message_data.is_none(),
    {
        let timestamp = get_unix_timestamp_secs();
        Message::default_at(timestamp)
    }

    /// Whether the payload fits the 4-byte length prefix, so that the
    /// envelope can be encoded.
    pub fn is_encodable(&self) -> (r: bool)
        ensures
            r == self@.wf(),
    {
        match &self.message_data {
            Some(d) => d.len() <= u32::MAX as usize,
            None => true,
        }
    }

    /// The bytes of this envelope on the wire.
    pub fn encode(&self) -> (r: Vec<u8>)
        requires
            self@.wf(),
        ensures
            r@ == spec_encode_message(self@),
    {
        let mut out: Vec<u8> = Vec::new();
        out.push(self.message_type.tag_byte());
        let ghost head = out@;
        match &self.message_data {
            Some(d) => {
                out.push(1u8);
                write_bytes(&mut out, d.as_slice());
                proof {
                    assert(out@ =~= head + spec_encode_payload(self@.message_data));
                }
            },
            None => {
                out.push(0u8);
                proof {
                    assert(out@ =~= head + spec_encode_payload(self@.message_data));
                }
            },
        }
        write_u64(&mut out, self.timestamp);
        proof {
            assert(out@ =~= spec_encode_message(self@));
        }
        out
    }

    /// Decodes an envelope, failing on an unknown kind, an invalid presence
    /// flag, a length prefix beyond the end of the buffer, a buffer that ends
    /// early, or bytes left over after the timestamp.
    pub fn decode(bytes: &[u8]) -> (r: Result<Message, DecodeError>)
        ensures
            match r {
                Ok(m) => spec_decode_message(bytes@) == Ok::<MessageView, DecodeError>(m@),
                Err(e) => spec_decode_message(bytes@) == Err::<MessageView, DecodeError>(e),
            },
    {
        if bytes.len() < 1 {
            return Err(DecodeError::UnexpectedEnd);
        }
        let t = match MessageType::from_tag(bytes[0]) {
            Some(t) => t,
            None => {
                return Err(DecodeError::UnknownTag);
            },
        };
        if bytes.len() < 2 {
            return Err(DecodeError::UnexpectedEnd);
        }
        let (message_data, p) = if bytes[1] == 0 {
            (None, 2usize)
        } else if bytes[1] == 1 {
            match read_bytes(bytes, 2) {
                Ok((d, p)) => (Some(d), p),
                Err(e) => {
                    return Err(e);
                },
            }
        } else {
            return Err(DecodeError::InvalidPresenceFlag);
        };
        let (timestamp, q) = match read_u64(bytes, p) {
            Ok(x) => x,
            Err(e) => {
                return Err(e);
            },
        };
        if q < bytes.len() {
            return Err(DecodeError::TrailingBytes);
        }
        Ok(Message { message_type: t, message_data, timestamp })
    }
}

/// Every envelope that can be encoded decodes back to itself.
pub proof fn lemma_message_round_trip(m: MessageView)
    requires
        m.wf(),
    ensures
        spec_decode_message(spec_encode_message(m)) == Ok::<MessageView, DecodeError>(m),
{
    let b = spec_encode_message(m);
    let t = seq![m.message_type.tag()];
    let ts = spec_u64_to_le_bytes(m.timestamp);
    let payload = spec_encode_payload(m.message_data);
    lemma_auto_spec_u64_to_from_le_bytes();
    lemma_auto_spec_u32_to_from_le_bytes();
    assert(b[0] == m.message_type.tag());
    assert(message_type_of_tag(b[0]) == Some(m.message_type));
    match m.message_data {
        Some(d) => {
            assert(b =~= (t + seq![1u8]) + spec_encode_bytes(d) + ts);
            lemma_read_encoded_bytes(t + seq![1u8], d, ts);
            assert(b[1] == 1);
            assert(payload.len() == 5 + d.len());
        },
        None => {
            assert(b[1] == 0);
        },
    }
    assert(spec_read_payload(b, 1) == Ok::<(Option<Seq<u8>>, int), DecodeError>(
        (m.message_data, (1 + payload.len()) as int),
    ));
    assert(b =~= (t + payload) + ts + Seq::<u8>::empty());
    lemma_read_encoded_u64(t + payload, m.timestamp, Seq::<u8>::empty());
    assert(b.len() == 1 + payload.len() + 8);
}

/// Two envelopes that can be encoded and encode to the same bytes are equal.
pub proof fn lemma_message_encoding_injective(m1: MessageView, m2: MessageView)
    requires
        m1.wf(),
        m2.wf(),
        spec_encode_message(m1) == spec_encode_message(m2),
    ensures
        m1 == m2,
{
    lemma_message_round_trip(m1);
    lemma_message_round_trip(m2);
}

/// A buffer shorter than the smallest envelope is rejected.
pub proof fn lemma_short_buffer_rejected(b: Seq<u8>)
    requires
        b.len() < MIN_MESSAGE_LEN,
    ensures
        spec_decode_message(b) is Err,
{
}

/// A buffer whose payload length prefix exceeds the bytes after it is
/// rejected.
pub proof fn lemma_oversized_length_rejected(b: Seq<u8>)
    requires
        b.len() >= 6,
        b[1] == 1,
        spec_u32_from_le_bytes(b.subrange(2, 6)) > b.len() - 6,
    ensures
        spec_decode_message(b) is Err,
{
}

} // verus!
