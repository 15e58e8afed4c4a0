use state_channel_p2p::instruction::{NativeSOLTransfer, SPLTokenTransfer, StateChanIx};
use state_channel_p2p::message::{Message, MessageType, MIN_MESSAGE_LEN};
use state_channel_p2p::wire::DecodeError;

fn envelope(kind: MessageType, data: Option<Vec<u8>>, ts: u64) -> Message {
    Message { message_type: kind, message_data: data, timestamp: ts }
}

fn native(amount: u64, recipient: &str) -> StateChanIx {
    StateChanIx::NativeSOLTransfer(NativeSOLTransfer {
        peer_id: "sender".to_string(),
        amount,
        recipient: recipient.to_string(),
    })
}

#[test]
fn envelope_layout_is_exact() {
    let m = envelope(MessageType::AnnounceIxsLen, Some(vec![7, 8]), 0x0102030405060708);
    assert_eq!(
        m.encode(),
        vec![1, 1, 2, 0, 0, 0, 7, 8, 8, 7, 6, 5, 4, 3, 2, 1]
    );
    let empty = envelope(MessageType::NoMessage, None, 5);
    assert_eq!(empty.encode(), vec![2, 0, 5, 0, 0, 0, 0, 0, 0, 0]);
    assert_eq!(empty.encode().len(), MIN_MESSAGE_LEN);
}

#[test]
fn envelope_layout_matches_borsh() {
    let m = envelope(MessageType::PushInstruction, Some(vec![1, 2, 3]), 1_700_000_000);
    let expected = borsh::to_vec(&(0u8, Some(vec![1u8, 2, 3]), 1_700_000_000u64)).unwrap();
    assert_eq!(m.encode(), expected);
    let none = envelope(MessageType::NoMessage, None, 9);
    let expected_none = borsh::to_vec(&(2u8, Option::<Vec<u8>>::None, 9u64)).unwrap();
    assert_eq!(none.encode(), expected_none);
}

#[test]
fn envelope_round_trips() {
    let cases = vec![
        envelope(MessageType::PushInstruction, Some(vec![0, 255, 3]), 42),
        envelope(MessageType::AnnounceIxsLen, Some(Vec::new()), u64::MAX),
        envelope(MessageType::NoMessage, None, 0),
    ];
    for m in cases {
        assert_eq!(Message::decode(&m.encode()), Ok(m.clone()));
    }
}

#[test]
fn decode_rejects_short_buffers() {
    let full = envelope(MessageType::NoMessage, None, 77).encode();
    for n in 0..MIN_MESSAGE_LEN {
        assert!(Message::decode(&full[..n]).is_err());
    }
    assert_eq!(Message::decode(&[]), Err(DecodeError::UnexpectedEnd));
}

#[test]
fn decode_rejects_unknown_kind() {
    assert_eq!(
        Message::decode(&[3, 0, 0, 0, 0, 0, 0, 0, 0, 0]),
        Err(DecodeError::UnknownTag)
    );
}

#[test]
fn decode_rejects_bad_presence_flag() {
    assert_eq!(
        Message::decode(&[0, 2, 0, 0, 0, 0, 0, 0, 0, 0]),
        Err(DecodeError::InvalidPresenceFlag)
    );
}

#[test]
fn decode_rejects_length_beyond_buffer() {
    let bytes = vec![0, 1, 200, 0, 0, 0, 1, 2, 3, 4, 5, 6, 7, 8, 9, 10];
    assert_eq!(Message::decode(&bytes), Err(DecodeError::UnexpectedEnd));
    let huge = vec![0, 1, 255, 255, 255, 255, 1, 2];
    assert_eq!(Message::decode(&huge), Err(DecodeError::UnexpectedEnd));
}

#[test]
fn decode_rejects_trailing_bytes() {
    let mut bytes = envelope(MessageType::AnnounceIxsLen, Some(vec![1]), 3).encode();
    bytes.push(0);
    assert_eq!(Message::decode(&bytes), Err(DecodeError::TrailingBytes));
}

#[test]
fn instruction_layout_matches_borsh() {
    let ix = native(50, "R1");
    let expected = borsh::to_vec(&(0u8, "sender".to_string(), 50u64, "R1".to_string())).unwrap();
    assert_eq!(ix.encode(), expected);
    let token = StateChanIx::SPLTokenTransfer(SPLTokenTransfer {
        peer_id: "p".to_string(),
        token_mint: "mint".to_string(),
        amount: 9,
        recipient: "r".to_string(),
    });
    let expected_token = borsh::to_vec(&(
        1u8,
        "p".to_string(),
        "mint".to_string(),
        9u64,
        "r".to_string(),
    ))
    .unwrap();
    assert_eq!(token.encode(), expected_token);
    assert_eq!(StateChanIx::Invalid.encode(), vec![2]);
}

#[test]
fn instruction_round_trips() {
    let cases = vec![
        native(0, ""),
        native(u64::MAX, "Grüße ✓"),
        StateChanIx::SPLTokenTransfer(SPLTokenTransfer {
            peer_id: "a".to_string(),
            token_mint: "b".to_string(),
            amount: 123456789,
            recipient: "c".to_string(),
        }),
        StateChanIx::Invalid,
    ];
    for ix in cases {
        assert!(ix.is_encodable());
        assert_eq!(StateChanIx::decode(&ix.encode()), Ok(ix.clone()));
    }
}

#[test]
fn instruction_decode_errors() {
    assert_eq!(StateChanIx::decode(&[]), Err(DecodeError::UnexpectedEnd));
    assert_eq!(StateChanIx::decode(&[7]), Err(DecodeError::UnknownTag));
    assert_eq!(StateChanIx::decode(&[2, 0]), Err(DecodeError::TrailingBytes));
    assert_eq!(
        StateChanIx::decode(&[0, 2, 0, 0, 0, 0xff, 0xfe]),
        Err(DecodeError::InvalidUtf8)
    );
    let mut cut = native(5, "R1").encode();
    cut.pop();
    assert_eq!(StateChanIx::decode(&cut), Err(DecodeError::UnexpectedEnd));
}

#[test]
fn message_constructors() {
    let m = Message::new(MessageType::PushInstruction, vec![1, 2]);
    assert_eq!(m.message_type, MessageType::PushInstruction);
    assert_eq!(m.message_data, Some(vec![1, 2]));
    assert!(m.timestamp > 1_600_000_000);
    let d = Message::default();
    assert_eq!(d.message_type, MessageType::NoMessage);
    assert_eq!(d.message_data, None);
    let placeholder = Message::default_at(21);
    assert_eq!(placeholder, envelope(MessageType::NoMessage, None, 21));
    let at = Message::new_at(MessageType::AnnounceIxsLen, vec![], 11);
    assert_eq!(at.timestamp, 11);
    assert!(at.is_encodable());
}
