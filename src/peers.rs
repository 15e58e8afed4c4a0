//! Peer identities and the registry of connected peers.

use vstd::prelude::*;

verus! {

broadcast use vstd::seq_lib::group_to_multiset_ensures;

/// A peer's identity, held as the bytes of its encoded form.
#[derive(Clone, Debug, PartialEq, Eq)]
pub struct PeerIdentity {
    pub bytes: Vec<u8>,
}

impl View for PeerIdentity {
    type V = Seq<u8>;

    open spec fn view(&self) -> Seq<u8> {
        self.bytes@
    }
}

impl PeerIdentity {
    /// The identity whose encoded form is `bytes`.
    pub fn from_bytes(bytes: Vec<u8>) -> (r: PeerIdentity)
        ensures
            r@ == bytes@,
    {
        PeerIdentity { bytes }
    }

    /// Whether two identities are the same.
    pub fn same_as(&self, other: &PeerIdentity) -> (r: bool)
        ensures
            r == (self@ == other@),
    {
        if self.bytes.len() != other.bytes.len() {
            return false;
        }
        let mut i: usize = 0;
        while i < self.bytes.len()
            invariant
                self.bytes@.len() == other.bytes@.len(),
                0 <= i <= self.bytes@.len(),
                forall|j: int| 0 <= j < i ==> self.bytes@[j] == other.bytes@[j],
            decreases self.bytes@.len() - i,
        {
            if self.bytes[i] != other.bytes[i] {
                return false;
            }
            i = i + 1;
        }
        proof {
            assert(self@ =~= other@);
        }
        true
    }
}

/// The identities of a list of peers.
pub open spec fn identities(v: Seq<PeerIdentity>) -> Seq<Seq<u8>> {
    v.map_values(|p: PeerIdentity| p@)
}

/// `after` is `before` without the first occurrence of `p`, or `before`
/// itself when `p` does not occur.
pub open spec fn removes_first(before: Seq<Seq<u8>>, after: Seq<Seq<u8>>, p: Seq<u8>) -> bool {
    if before.contains(p) {
        exists|i: int|
            0 <= i < before.len() && before[i] == p && (forall|j: int|
                0 <= j < i ==> before[j] != p) && after == before.remove(i)
    } else {
        after == before
    }
}

/// The local identity and the peers connected now, in the order they
/// connected. A peer that connects twice is listed twice.
#[derive(Debug)]
pub struct P2PConnectionsInfo {
    pub local_peer_id: Option<PeerIdentity>,
    pub connected_peers: Option<Vec<PeerIdentity>>,
}

impl P2PConnectionsInfo {
    /// The identities of the connected peers, oldest connection first.
    pub open spec fn peers(&self) -> Seq<Seq<u8>> {
        match self.connected_peers {
            Some(v) => identities(v@),
            None => Seq::empty(),
        }
    }

    /// A registry with no local identity and no peers.
    pub fn new() -> (r: P2PConnectionsInfo)
        ensures
            r.local_peer_id.is_none(),
            r.connected_peers.is_none(),
            r.peers() == Seq::<Seq<u8>>::empty(),
    {
        P2PConnectionsInfo { local_peer_id: None, connected_peers: None }
    }

    /// Records the local identity.
    pub fn set_local_peer_id(&mut self, peer_id: PeerIdentity)
        ensures
            final(self).local_peer_id == Some(peer_id),
            final(self).connected_peers == old(self).connected_peers,
    {
        self.local_peer_id = Some(peer_id);
    }

    /// Records a new connection with `peer_id`, after all earlier ones.
    pub fn push_peer(&mut self, peer_id: PeerIdentity)
        ensures
            final(self).local_peer_id == old(self).local_peer_id,
            final(self).connected_peers is Some,
            final(self).peers() == old(self).peers().push(peer_id@),
    {
        let ghost p = peer_id@;
        match &mut self.connected_peers {
            Some(v) => {
                let ghost before = v@;
                v.push(peer_id);
                proof {
                    assert(identities(v@) =~= identities(before).push(p));
                }
            },
            None => {
                let mut v: Vec<PeerIdentity> = Vec::new();
                v.push(peer_id);
                proof {
                    assert(identities(v@) =~= Seq::<Seq<u8>>::empty().push(p));
                }
                self.connected_peers = Some(v);
            },
        }
    }

    /// Records that the earliest recorded connection with `peer_id` closed;
    /// nothing changes when there is none.
    pub fn remove_peer(&mut self, peer_id: &PeerIdentity)
        ensures
            final(self).local_peer_id == old(self).local_peer_id,
            removes_first(old(self).peers(), final(self).peers(), peer_id@),
            old(self).peers().contains(peer_id@) ==> final(self).connected_peers is Some,
            !old(self).peers().contains(peer_id@) ==> final(self).connected_peers == old(
                self,
            ).connected_peers,
    {
        let found = match &self.connected_peers {
            Some(v) => position_of(v, peer_id),
            None => None,
        };
        if let Some(i) = found {
            match &mut self.connected_peers {
                Some(v) => {
                    let ghost before = identities(v@);
                    v.remove(i);
                    proof {
                        assert(before[i as int] == peer_id@);
                        assert(identities(v@) =~= before.remove(i as int));
                    }
                },
                None => {},
            }
        }
    }
}

/// The index of the first peer in `v` with the identity of `p`, if any.
fn position_of(v: &Vec<PeerIdentity>, p: &PeerIdentity) -> (r: Option<usize>)
    ensures
        r matches Some(i) ==> i < v@.len() && v@[i as int]@ == p@ && forall|j: int|
            0 <= j < i ==> v@[j]@ != p@,
        r is None ==> !identities(v@).contains(p@),
{
    let mut i: usize = 0;
    while i < v.len()
        invariant
            0 <= i <= v@.len(),
            forall|j: int| 0 <= j < i ==> v@[j]@ != p@,
        decreases v@.len() - i,
    {
        if v[i].same_as(p) {
            return Some(i);
        }
        i = i + 1;
    }
    proof {
        assert forall|k: int| 0 <= k < v@.len() implies identities(v@)[k] != p@ by {}
    }
    None
}

/// A new connection adds exactly one occurrence of the peer.
pub proof fn lemma_connect_adds_one(before: Seq<Seq<u8>>, p: Seq<u8>)
    ensures
        before.push(p).to_multiset().count(p) == before.to_multiset().count(p) + 1,
{
}

/// Closing a connection with a connected peer removes exactly one occurrence
/// of it; closing one with another peer changes nothing.
pub proof fn lemma_disconnect_removes_one(before: Seq<Seq<u8>>, after: Seq<Seq<u8>>, p: Seq<u8>)
    requires
        removes_first(before, after, p),
    ensures
        before.contains(p) ==> after.to_multiset().count(p) == before.to_multiset().count(p) - 1,
        !before.contains(p) ==> after == before,
{
}

/// A connection followed by its closing leaves each peer present as often as
/// before; a peer that was absent is absent again.
pub proof fn lemma_connect_then_disconnect(
    before: Seq<Seq<u8>>,
    after: Seq<Seq<u8>>,
    p: Seq<u8>,
)
    requires
        removes_first(before.push(p), after, p),
    ensures
        after.to_multiset().count(p) == before.to_multiset().count(p),
        !before.contains(p) ==> !after.contains(p),
{
    assert(before.push(p).contains(p)) by {
        assert(before.push(p)[before.len() as int] == p);
    }
    lemma_connect_adds_one(before, p);
    lemma_disconnect_removes_one(before.push(p), after, p);
}

} // verus!
