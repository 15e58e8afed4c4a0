use state_channel_p2p::gossip::{decimal_digits, message_id};
use state_channel_p2p::instruction::{NativeSOLTransfer, StateChanIx};
use state_channel_p2p::ledger::ChannelLedgerIxs;
use state_channel_p2p::message::{Message, MessageType};
use state_channel_p2p::node::{Command, NodeContext, Notice};
use state_channel_p2p::peers::{P2PConnectionsInfo, PeerIdentity};
use state_channel_p2p::wire::DecodeError;

fn peer(b: u8) -> PeerIdentity {
    PeerIdentity::from_bytes(vec![0, 36, b, b])
}

fn native(amount: u64, recipient: &str) -> StateChanIx {
    StateChanIx::NativeSOLTransfer(NativeSOLTransfer {
        peer_id: "local".to_string(),
        amount,
        recipient: recipient.to_string(),
    })
}

#[test]
fn ledger_push_pop_len() {
    let mut ledger = ChannelLedgerIxs::new(&peer(1));
    assert!(ledger.is_empty());
    assert_eq!(ledger.pop_ix(), None);
    ledger.push_ix(native(1, "a"));
    ledger.push_ix(native(2, "b"));
    ledger.push_ix(native(3, "c"));
    assert_eq!(ledger.len(), 3);
    assert_eq!(ledger.ixs[0], native(1, "a"));
    assert_eq!(ledger.ixs[2], native(3, "c"));
    assert_eq!(ledger.pop_ix(), Some(native(3, "c")));
    assert_eq!(ledger.len(), 2);
    assert!(!ledger.is_empty());
    assert_eq!(ledger.peer_id, peer(1));
}

#[test]
fn registry_connect_then_disconnect() {
    let mut reg = P2PConnectionsInfo::new();
    reg.set_local_peer_id(peer(0));
    reg.push_peer(peer(1));
    reg.remove_peer(&peer(1));
    assert!(!reg.connected_peers.unwrap_or_default().contains(&peer(1)));
}

#[test]
fn registry_keeps_duplicate_connections() {
    let mut reg = P2PConnectionsInfo::new();
    reg.push_peer(peer(1));
    reg.push_peer(peer(2));
    reg.push_peer(peer(1));
    reg.remove_peer(&peer(1));
    assert_eq!(reg.connected_peers, Some(vec![peer(2), peer(1)]));
    reg.remove_peer(&peer(9));
    assert_eq!(reg.connected_peers, Some(vec![peer(2), peer(1)]));
    reg.remove_peer(&peer(1));
    reg.remove_peer(&peer(2));
    assert_eq!(reg.connected_peers, Some(vec![]));
    assert_eq!(reg.local_peer_id, None);
}

#[test]
fn same_bytes_same_message_id() {
    let data = vec![1u8, 2, 3, 4];
    let first = message_id(&data);
    let second = message_id(&data.clone());
    assert_eq!(first, second);
    assert!(!first.is_empty());
    assert!(first.iter().all(|c| c.is_ascii_digit()));
    assert_ne!(first, data);
    assert_ne!(message_id(&[1, 2, 3, 5]), first);
}

#[test]
fn decimal_digits_exact() {
    assert_eq!(decimal_digits(0), b"0".to_vec());
    assert_eq!(decimal_digits(1234), b"1234".to_vec());
    assert_eq!(decimal_digits(u64::MAX), u64::MAX.to_string().into_bytes());
}

#[test]
fn command_selectors() {
    assert_eq!(Command::from_selector(1), Some(Command::PushInstruction));
    assert_eq!(Command::from_selector(2), Some(Command::AnnounceLength));
    assert_eq!(Command::from_selector(0), None);
    assert_eq!(Command::from_selector(3), None);
}

#[test]
fn push_command_appends_and_broadcasts() {
    let mut ctx = NodeContext::new(peer(7));
    let msg = ctx.push_local_instruction(native(50, "R1"), 100).unwrap();
    assert_eq!(ctx.ledger.len(), 1);
    assert_eq!(msg.message_type, MessageType::PushInstruction);
    let payload = msg.message_data.clone().unwrap();
    match StateChanIx::decode(&payload).unwrap() {
        StateChanIx::NativeSOLTransfer(t) => {
            assert_eq!(t.amount, 50);
            assert_eq!(t.recipient, "R1");
        }
        other => panic!("unexpected instruction {:?}", other),
    }
}

#[test]
fn push_command_rejects_invalid_sentinel() {
    let mut ctx = NodeContext::new(peer(7));
    assert_eq!(ctx.push_local_instruction(StateChanIx::Invalid, 1), None);
    assert_eq!(ctx.ledger.len(), 0);
}

#[test]
fn announce_command_carries_length() {
    let mut ctx = NodeContext::new(peer(7));
    for i in 0..3 {
        ctx.ledger.push_ix(native(i, "x"));
    }
    let msg = ctx.announce_length(5);
    assert_eq!(msg.message_type, MessageType::AnnounceIxsLen);
    assert_eq!(msg.message_data, Some(3u64.to_le_bytes().to_vec()));
}

#[test]
fn receive_push_appends() {
    let mut sender = NodeContext::new(peer(1));
    let msg = sender.push_local_instruction(native(9, "R2"), 3).unwrap();
    let mut receiver = NodeContext::new(peer(2));
    assert_eq!(receiver.receive_message(&msg.encode()), Notice::InstructionAppended);
    assert_eq!(receiver.ledger.ixs, vec![native(9, "R2")]);
}

#[test]
fn receive_unparsable_payload_leaves_ledger() {
    let mut ctx = NodeContext::new(peer(1));
    let bad = Message::new_at(MessageType::PushInstruction, vec![9, 9, 9], 1).encode();
    assert_eq!(
        ctx.receive_message(&bad),
        Notice::MalformedInstruction(DecodeError::UnknownTag)
    );
    assert_eq!(ctx.ledger.len(), 0);
    let good = NodeContext::new(peer(3))
        .push_local_instruction(native(1, "z"), 2)
        .unwrap()
        .encode();
    assert_eq!(ctx.receive_message(&good), Notice::InstructionAppended);
    assert_eq!(ctx.ledger.len(), 1);
}

#[test]
fn receive_other_notices() {
    let mut ctx = NodeContext::new(peer(1));
    let announce = Message::new_at(MessageType::AnnounceIxsLen, 3u64.to_le_bytes().to_vec(), 1);
    assert_eq!(ctx.receive_message(&announce.encode()), Notice::LedgerLengthAnnounced(3));
    let short = Message::new_at(MessageType::AnnounceIxsLen, vec![1, 2], 1);
    assert_eq!(ctx.receive_message(&short.encode()), Notice::MalformedLength);
    let missing = Message { message_type: MessageType::PushInstruction, message_data: None, timestamp: 1 };
    assert_eq!(ctx.receive_message(&missing.encode()), Notice::MissingPayload);
    assert_eq!(ctx.receive_message(&Message::default().encode()), Notice::Ignored);
    assert_eq!(ctx.receive_message(&[5]), Notice::MalformedEnvelope(DecodeError::UnknownTag));
    let sentinel = Message::new_at(MessageType::PushInstruction, vec![2], 1);
    assert_eq!(ctx.receive_message(&sentinel.encode()), Notice::InvalidInstruction);
    assert_eq!(ctx.ledger.len(), 0);
}

#[test]
fn connection_events_leave_ledger() {
    let mut ctx = NodeContext::new(peer(1));
    ctx.ledger.push_ix(native(1, "a"));
    ctx.peer_connected(peer(2));
    ctx.peer_connected(peer(2));
    ctx.peer_disconnected(&peer(2));
    assert_eq!(ctx.connections.connected_peers, Some(vec![peer(2)]));
    assert_eq!(ctx.connections.local_peer_id, Some(peer(1)));
    assert_eq!(ctx.ledger.len(), 1);
}

#[test]
fn ledger_length_after_interleaved_run() {
    let mut ledger = ChannelLedgerIxs::new(&peer(4));
    let mut pushes = 0usize;
    let mut successful_pops = 0usize;
    for step in 0..12u64 {
        if step % 3 == 2 {
            if ledger.pop_ix().is_some() {
                successful_pops += 1;
            }
        } else {
            ledger.push_ix(native(step, "r"));
            pushes += 1;
        }
    }
    for _ in 0..20 {
        if ledger.pop_ix().is_some() {
            successful_pops += 1;
        }
    }
    ledger.push_ix(native(99, "last"));
    pushes += 1;
    assert_eq!(ledger.len(), pushes - successful_pops);
    assert_eq!(ledger.len(), 1);
    assert_eq!(ledger.ixs, vec![native(99, "last")]);
}

#[test]
fn registry_field_states() {
    let mut reg = P2PConnectionsInfo::new();
    assert_eq!(reg.connected_peers, None);
    reg.set_local_peer_id(peer(0));
    assert_eq!(reg.connected_peers, None);
    reg.remove_peer(&peer(3));
    assert_eq!(reg.connected_peers, None);
    assert_eq!(reg.local_peer_id, Some(peer(0)));
}
