//! The local ledger: an append-only record of the instructions this node
//! originated or received, in local arrival order.

use crate::instruction::StateChanIx;
use crate::peers::PeerIdentity;
use vstd::prelude::*;

verus! {

/// The ledger of one node.
#[derive(Debug)]
pub struct ChannelLedgerIxs {
    /// The node that owns the ledger.
    pub peer_id: PeerIdentity,
    /// The entries, oldest first.
    pub ixs: Vec<StateChanIx>,
}

impl ChannelLedgerIxs {
    /// The entries, oldest first.
    pub open spec fn entries(&self) -> Seq<StateChanIx> {
        self.ixs@
    }

    /// An empty ledger owned by `peer_id`.
    pub fn new(peer_id: &PeerIdentity) -> (r: ChannelLedgerIxs)
        ensures
            r.peer_id@ == peer_id@,
            r.entries() == Seq::<StateChanIx>::empty(),
    {
        ChannelLedgerIxs { peer_id: PeerIdentity::from_bytes(copy_bytes(&peer_id.bytes)), ixs: Vec::new() }
    }

    /// Appends an instruction after all others.
    pub fn push_ix(&mut self, ix: StateChanIx)
        ensures
            final(self).peer_id == old(self).peer_id,
            final(self).entries() == old(self).entries().push(ix),
    {
        self.ixs.push(ix);
    }

    /// Removes and returns the most recent instruction, or `None` when the
    /// ledger is empty.
    pub fn pop_ix(&mut self) -> (r: Option<StateChanIx>)
        ensures
            final(self).peer_id == old(self).peer_id,
            old(self).entries().len() == 0 ==> r is None && final(self).entries() == old(
                self,
            ).entries(),
            old(self).entries().len() > 0 ==> r == Some(old(self).entries().last())
                && final(self).entries() == old(self).entries().drop_last(),
    {
        self.ixs.pop()
    }

    /// The number of entries.
    pub fn len(&self) -> (r: usize)
        ensures
            r == self.entries().len(),
    {
        self.ixs.len()
    }

    /// Whether the ledger has no entries.
    pub fn is_empty(&self) -> (r: bool)
        ensures
            r == (self.entries().len() == 0),
    {
        self.ixs.is_empty()
    }
}

/// A copy of a byte vector.
fn copy_bytes(b: &Vec<u8>) -> (r: Vec<u8>)
    ensures
        r@ == b@,
{
    vstd::slice::slice_to_vec(b.as_slice())
}

/// One operation on a ledger.
pub enum LedgerOp {
    Push(StateChanIx),
    Pop,
}

/// The entries after applying `ops` in order to a ledger holding `s`, as
/// `push_ix` and `pop_ix` state them.
pub open spec fn apply_ledger_ops(s: Seq<StateChanIx>, ops: Seq<LedgerOp>) -> Seq<StateChanIx>
    decreases ops.len(),
{
    if ops.len() == 0 {
        s
    } else {
        let next = match ops[0] {
            LedgerOp::Push(ix) => s.push(ix),
            LedgerOp::Pop => if s.len() > 0 {
                s.drop_last()
            } else {
                s
            },
        };
        apply_ledger_ops(next, ops.drop_first())
    }
}

/// The number of pushes among `ops`.
pub open spec fn push_count(ops: Seq<LedgerOp>) -> nat
    decreases ops.len(),
{
    if ops.len() == 0 {
        0
    } else {
        push_count(ops.drop_first()) + if ops[0] is Push {
            1nat
        } else {
            0nat
        }
    }
}

/// The number of pops among `ops`, applied to a ledger holding `s`, that
/// found an entry to remove.
pub open spec fn successful_pop_count(s: Seq<StateChanIx>, ops: Seq<LedgerOp>) -> nat
    decreases ops.len(),
{
    if ops.len() == 0 {
        0
    } else {
        match ops[0] {
            LedgerOp::Push(ix) => successful_pop_count(s.push(ix), ops.drop_first()),
            LedgerOp::Pop => if s.len() > 0 {
                successful_pop_count(s.drop_last(), ops.drop_first()) + 1
            } else {
                successful_pop_count(s, ops.drop_first())
            },
        }
    }
}

/// After any sequence of pushes and pops the length is the starting length
/// plus the pushes minus the pops that removed an entry.
pub proof fn lemma_ledger_length(s: Seq<StateChanIx>, ops: Seq<LedgerOp>)
    ensures
        apply_ledger_ops(s, ops).len() + successful_pop_count(s, ops) == s.len() + push_count(ops),
    decreases ops.len(),
{
    if ops.len() > 0 {
        match ops[0] {
            LedgerOp::Push(ix) => lemma_ledger_length(s.push(ix), ops.drop_first()),
            LedgerOp::Pop => if s.len() > 0 {
                lemma_ledger_length(s.drop_last(), ops.drop_first())
            } else {
                lemma_ledger_length(s, ops.drop_first())
            },
        }
    }
}

/// One push, as `push_ix` states it, and one pop, as `pop_ix` states it.
pub proof fn lemma_ledger_single_ops(s: Seq<StateChanIx>, ix: StateChanIx)
    ensures
        apply_ledger_ops(s, seq![LedgerOp::Push(ix)]) == s.push(ix),
        push_count(seq![LedgerOp::Push(ix)]) == 1,
        successful_pop_count(s, seq![LedgerOp::Push(ix)]) == 0,
        apply_ledger_ops(s, seq![LedgerOp::Pop]) == (if s.len() > 0 {
            s.drop_last()
        } else {
            s
        }),
        push_count(seq![LedgerOp::Pop]) == 0,
        successful_pop_count(s, seq![LedgerOp::Pop]) == (if s.len() > 0 {
            1nat
        } else {
            0nat
        }),
{
    let push = seq![LedgerOp::Push(ix)];
    let pop = seq![LedgerOp::Pop];
    let none = Seq::<LedgerOp>::empty();
    assert(push.drop_first() =~= none);
    assert(pop.drop_first() =~= none);
    assert(push[0] == LedgerOp::Push(ix));
    assert(pop[0] == LedgerOp::Pop);
    assert(apply_ledger_ops(s.push(ix), none) == s.push(ix));
    assert(push_count(none) == 0);
    assert(push_count(push) == push_count(none) + 1);
    assert(successful_pop_count(s.push(ix), none) == 0);
    assert(successful_pop_count(s, push) == 0);
    assert(apply_ledger_ops(s.drop_last(), none) == s.drop_last());
    assert(apply_ledger_ops(s, none) == s);
    assert(successful_pop_count(s.drop_last(), none) == 0);
    assert(successful_pop_count(s, none) == 0);
    assert(push_count(pop) == push_count(none));
}

/// Running `first` and then `second` is running their concatenation: the
/// entries, the pushes and the successful pops all compose. With the single
/// operations above, this carries the length law to any run of `push_ix` and
/// `pop_ix` calls, one call at a time.
pub proof fn lemma_ledger_ops_compose(s: Seq<StateChanIx>, first: Seq<LedgerOp>, second: Seq<LedgerOp>)
    ensures
        apply_ledger_ops(s, first + second) == apply_ledger_ops(apply_ledger_ops(s, first), second),
        push_count(first + second) == push_count(first) + push_count(second),
        successful_pop_count(s, first + second) == successful_pop_count(s, first)
            + successful_pop_count(apply_ledger_ops(s, first), second),
    decreases first.len(),
{
    if first.len() == 0 {
        assert(first + second =~= second);
    } else {
        assert((first + second).drop_first() =~= first.drop_first() + second);
        assert((first + second)[0] == first[0]);
        match first[0] {
            LedgerOp::Push(ix) => lemma_ledger_ops_compose(s.push(ix), first.drop_first(), second),
            LedgerOp::Pop => if s.len() > 0 {
                lemma_ledger_ops_compose(s.drop_last(), first.drop_first(), second)
            } else {
                lemma_ledger_ops_compose(s, first.drop_first(), second)
            },
        }
    }
}

/// A run of pushes appends the pushed instructions in the order pushed.
pub proof fn lemma_pushes_keep_order(s: Seq<StateChanIx>, ixs: Seq<StateChanIx>)
    ensures
        apply_ledger_ops(s, ixs.map_values(|ix: StateChanIx| LedgerOp::Push(ix))) == s + ixs,
    decreases ixs.len(),
{
    let ops = ixs.map_values(|ix: StateChanIx| LedgerOp::Push(ix));
    if ixs.len() == 0 {
        assert(s + ixs =~= s);
    } else {
        let rest = ixs.drop_first();
        assert(ops.drop_first() =~= rest.map_values(|ix: StateChanIx| LedgerOp::Push(ix)));
        lemma_pushes_keep_order(s.push(ixs[0]), rest);
        assert(s.push(ixs[0]) + rest =~= s + ixs);
    }
}

} // verus!
