//! The decisions of the node's event loop: what a local command does to the
//! ledger and which envelope it sends, and what a received envelope does.
//! The loop itself, which waits on local input and on the overlay, runs
//! outside the library.

use crate::instruction::{
    spec_decode_instruction, spec_encode_instruction, InstructionView, StateChanIx,
};
use crate::ledger::ChannelLedgerIxs;
use crate::message::{spec_decode_message, Message, MessageType, MessageView};
use crate::peers::{removes_first, P2PConnectionsInfo, PeerIdentity};
use crate::wire::DecodeError;
use vstd::bytes::*;
use vstd::prelude::*;

verus! {

/// A local command, chosen by a small number.
#[derive(Clone, Copy, Debug, PartialEq, Eq, Structural)]
pub enum Command {
    /// `1`: enter an instruction, append it, and broadcast it.
    PushInstruction,
    /// `2`: broadcast the length of the ledger.
    AnnounceLength,
}

/// The command a selector stands for, if any.
pub open spec fn command_of(n: u8) -> Option<Command> {
    if n == 1 {
        Some(Command::PushInstruction)
    } else if n == 2 {
        Some(Command::AnnounceLength)
    } else {
        None
    }
}

impl Command {
    /// The command a selector stands for, if any.
    pub fn from_selector(n: u8) -> (r: Option<Command>)
        ensures
            r == command_of(n),
    {
        if n == 1 {
            Some(Command::PushInstruction)
        } else if n == 2 {
            Some(Command::AnnounceLength)
        } else {
            None
        }
    }
}

/// What became of a received envelope.
#[derive(Clone, Copy, Debug, PartialEq, Eq, Structural)]
pub enum Notice {
    /// The instruction it carried was appended to the ledger.
    InstructionAppended,
    /// A peer announced the length of its ledger.
    LedgerLengthAnnounced(u64),
    /// An envelope of no kind; nothing to do.
    Ignored,
    /// The bytes are not an envelope.
    MalformedEnvelope(DecodeError),
    /// The envelope's kind needs a payload and it has none.
    MissingPayload,
    /// The payload is not an instruction.
    MalformedInstruction(DecodeError),
    /// The payload is the invalid-instruction sentinel.
    InvalidInstruction,
    /// The announced length is not 8 bytes.
    MalformedLength,
}

/// What receiving the bytes `b` gives.
pub open spec fn spec_receive_notice(b: Seq<u8>) -> Notice {
    match spec_decode_message(b) {
        Err(e) => Notice::MalformedEnvelope(e),
        Ok(m) => match m.message_type {
            MessageType::NoMessage => Notice::Ignored,
            MessageType::PushInstruction => match m.message_data {
                None => Notice::MissingPayload,
                Some(d) => match spec_decode_instruction(d) {
                    Err(e) => Notice::MalformedInstruction(e),
                    Ok(InstructionView::Invalid) => Notice::InvalidInstruction,
                    Ok(_) => Notice::InstructionAppended,
                },
            },
            MessageType::AnnounceIxsLen => match m.message_data {
                None => Notice::MissingPayload,
                Some(d) => if d.len() == 8 {
                    Notice::LedgerLengthAnnounced(spec_u64_from_le_bytes(d))
                } else {
                    Notice::MalformedLength
                },
            },
        },
    }
}

/// The instruction that receiving `b` appends, when it appends one.
pub open spec fn spec_received_instruction(b: Seq<u8>) -> InstructionView {
    match spec_decode_message(b) {
        Ok(m) => match m.message_data {
            Some(d) => match spec_decode_instruction(d) {
                Ok(ix) => ix,
                Err(_) => InstructionView::Invalid,
            },
            None => InstructionView::Invalid,
        },
        Err(_) => InstructionView::Invalid,
    }
}

/// The state of a node: its connections and its ledger, owned by the event
/// loop.
#[derive(Debug)]
pub struct NodeContext {
    pub connections: P2PConnectionsInfo,
    pub ledger: ChannelLedgerIxs,
}

impl NodeContext {
    /// A node with identity `local`, no peers and an empty ledger.
    pub fn new(local: PeerIdentity) -> (r: NodeContext)
        ensures
            r.connections.local_peer_id == Some(local),
            r.connections.connected_peers.is_none(),
            r.ledger.peer_id@ == local@,
            r.ledger.entries() == Seq::<StateChanIx>::empty(),
    {
        let ledger = ChannelLedgerIxs::new(&local);
        let mut connections = P2PConnectionsInfo::new();
        connections.set_local_peer_id(local);
        NodeContext { connections, ledger }
    }

    /// Command `1` with the instruction entered: appends it to the ledger and
    /// returns the envelope that broadcasts it. The invalid sentinel, or an
    /// instruction too large for an envelope, is neither appended nor sent.
    pub fn push_local_instruction(&mut self, ix: StateChanIx, timestamp: u64) -> (r: Option<
        Message,
    >)
        ensures
            final(self).connections == old(self).connections,
            final(self).ledger.peer_id == old(self).ledger.peer_id,
            r is Some <==> (ix@.wf() && !(ix@ is Invalid)),
            r is Some ==> final(self).ledger.entries() == old(self).ledger.entries().push(ix),
            r is None ==> final(self).ledger.entries() == old(self).ledger.entries(),
            r matches Some(m) ==> (m@.wf() && m@.message_type == MessageType::PushInstruction
                && m@.timestamp == timestamp && m@.message_data == Some(spec_encode_instruction(ix@))
                && spec_decode_instruction(spec_encode_instruction(ix@)) == Ok::<
                InstructionView,
                DecodeError,
            >(ix@)),
    {
        if let StateChanIx::Invalid = ix {
            return None;
        }
        if !ix.is_encodable() {
            return None;
        }
        let data = ix.encode();
        proof {
            crate::instruction::lemma_instruction_round_trip(ix@);
            crate::instruction::lemma_instruction_fits_payload(ix@);
        }
        self.ledger.push_ix(ix);
        Some(Message::new_at(MessageType::PushInstruction, data, timestamp))
    }

    /// Command `2`: the envelope that announces the ledger's length.
    pub fn announce_length(&self, timestamp: u64) -> (r: Message)
        ensures
            r@ == (MessageView {
                message_type: MessageType::AnnounceIxsLen,
                message_data: Some(spec_u64_to_le_bytes(self.ledger.entries().len() as u64)),
                timestamp,
            }),
            r@.wf(),
    {
        let n = self.ledger.len() as u64;
        proof {
            lemma_auto_spec_u64_to_from_le_bytes();
        }
        Message::new_at(MessageType::AnnounceIxsLen, u64_to_le_bytes(n), timestamp)
    }

    /// Handles the bytes of a received envelope: appends the instruction it
    /// carries, or reports the length a peer announced, or reports why it
    /// was discarded. Only an appended instruction changes the ledger.
    pub fn receive_message(&mut self, data: &[u8]) -> (r: Notice)
        ensures
            r == spec_receive_notice(data@),
            final(self).connections == old(self).connections,
            final(self).ledger.peer_id == old(self).ledger.peer_id,
            r is InstructionAppended ==> final(self).ledger.entries().len() == old(
                self,
            ).ledger.entries().len() + 1 && final(self).ledger.entries().drop_last() == old(
                self,
            ).ledger.entries() && final(self).ledger.entries().last()@
                == spec_received_instruction(data@),
            !(r is InstructionAppended) ==> final(self).ledger.entries() == old(
                self,
            ).ledger.entries(),
    {
        let m = match Message::decode(data) {
            Ok(m) => m,
            Err(e) => {
                return Notice::MalformedEnvelope(e);
            },
        };
        match m.message_type {
            MessageType::NoMessage => Notice::Ignored,
            MessageType::PushInstruction => match &m.message_data {
                None => Notice::MissingPayload,
                Some(d) => match StateChanIx::decode(d.as_slice()) {
                    Err(e) => Notice::MalformedInstruction(e),
                    Ok(StateChanIx::Invalid) => Notice::InvalidInstruction,
                    Ok(ix) => {
                        let ghost before = self.ledger.entries();
                        self.ledger.push_ix(ix);
                        proof {
                            assert(self.ledger.entries().drop_last() =~= before);
                        }
                        Notice::InstructionAppended
                    },
                },
            },
            MessageType::AnnounceIxsLen => match &m.message_data {
                None => Notice::MissingPayload,
                Some(d) => if d.len() == 8 {
                    Notice::LedgerLengthAnnounced(u64_from_le_bytes(d.as_slice()))
                } else {
                    Notice::MalformedLength
                },
            },
        }
    }

    /// A connection with `peer_id` opened. The ledger is untouched.
    pub fn peer_connected(&mut self, peer_id: PeerIdentity)
        ensures
            final(self).ledger == old(self).ledger,
            final(self).connections.local_peer_id == old(self).connections.local_peer_id,
            final(self).connections.peers() == old(self).connections.peers().push(peer_id@),
    {
        self.connections.push_peer(peer_id);
    }

    /// A connection with `peer_id` closed. The ledger is untouched.
    pub fn peer_disconnected(&mut self, peer_id: &PeerIdentity)
        ensures
            final(self).ledger == old(self).ledger,
            final(self).connections.local_peer_id == old(self).connections.local_peer_id,
            removes_first(old(self).connections.peers(), final(self).connections.peers(), peer_id@),
            !old(self).connections.peers().contains(peer_id@) ==> final(self).connections
                == old(self).connections,
    {
        self.connections.remove_peer(peer_id);
    }
}

} // verus!
