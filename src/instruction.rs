//! Ledger instructions and their binary encoding.
//!
//! Layout: a 1-byte variant tag, then the variant's fields in order; each
//! string is a 4-byte little-endian byte count followed by its UTF-8 bytes,
//! each amount 8 bytes little-endian.

use crate::wire::{
    lemma_read_encoded_bytes, lemma_read_encoded_u64, read_bytes, read_u64, spec_encode_bytes,
    spec_read_bytes, spec_read_u64, write_bytes, write_u64, DecodeError,
};
use vstd::bytes::*;
use vstd::prelude::*;
use vstd::string::*;
use vstd::utf8::*;

verus! {

/// A transfer of the native currency.
#[derive(Clone, Debug, PartialEq, Eq)]
pub struct NativeSOLTransfer {
    /// The sender's address.
    pub peer_id: String,
    pub amount: u64,
    /// The recipient's address.
    pub recipient: String,
}

/// A transfer of a token.
#[derive(Clone, Debug, PartialEq, Eq)]
pub struct SPLTokenTransfer {
    /// The sender's address.
    pub peer_id: String,
    /// The token's mint address.
    pub token_mint: String,
    pub amount: u64,
    /// The recipient's address.
    pub recipient: String,
}

/// One entry of the ledger.
#[derive(Clone, Debug, PartialEq, Eq)]
pub enum StateChanIx {
    NativeSOLTransfer(NativeSOLTransfer),
    SPLTokenTransfer(SPLTokenTransfer),
    /// An invalid or unparsed instruction; never written to a ledger.
    Invalid,
}

/// The state of a payment channel.
#[derive(Clone, Copy, Debug, PartialEq, Eq, Structural)]
pub enum StateChanState {
    Open { is_settled: bool },
    Closed,
}

/// The mathematical value of an instruction.
pub enum InstructionView {
    Native { peer_id: Seq<char>, amount: u64, recipient: Seq<char> },
    Token { peer_id: Seq<char>, token_mint: Seq<char>, amount: u64, recipient: Seq<char> },
    Invalid,
}

impl View for StateChanIx {
    type V = InstructionView;

    open spec fn view(&self) -> InstructionView {
        match self {
            StateChanIx::NativeSOLTransfer(t) => InstructionView::Native {
                peer_id: t.peer_id@,
                amount: t.amount,
                recipient: t.recipient@,
            },
            StateChanIx::SPLTokenTransfer(t) => InstructionView::Token {
                peer_id: t.peer_id@,
                token_mint: t.token_mint@,
                amount: t.amount,
                recipient: t.recipient@,
            },
            StateChanIx::Invalid => InstructionView::Invalid,
        }
    }
}

/// The encoding of a string: its UTF-8 byte count, then those bytes.
pub open spec fn spec_encode_str(s: Seq<char>) -> Seq<u8> {
    spec_encode_bytes(encode_utf8(s))
}

/// The bytes of an instruction on the wire.
pub open spec fn spec_encode_instruction(ix: InstructionView) -> Seq<u8> {
    match ix {
        InstructionView::Native { peer_id, amount, recipient } => seq![0u8] + spec_encode_str(
            peer_id,
        ) + spec_u64_to_le_bytes(amount) + spec_encode_str(recipient),
        InstructionView::Token { peer_id, token_mint, amount, recipient } => seq![1u8]
            + spec_encode_str(peer_id) + spec_encode_str(token_mint) + spec_u64_to_le_bytes(amount)
            + spec_encode_str(recipient),
        InstructionView::Invalid => seq![2u8],
    }
}

impl InstructionView {
    /// The instruction can be encoded and its encoding fits an envelope's
    /// payload: at most `u32::MAX` bytes in all.
    pub open spec fn wf(self) -> bool {
        match self {
            InstructionView::Native { peer_id, amount, recipient } => 17 + encode_utf8(
                peer_id,
            ).len() + encode_utf8(recipient).len() <= u32::MAX,
            InstructionView::Token { peer_id, token_mint, amount, recipient } => 21 + encode_utf8(
                peer_id,
            ).len() + encode_utf8(token_mint).len() + encode_utf8(recipient).len() <= u32::MAX,
            InstructionView::Invalid => true,
        }
    }
}

/// Reads the string that starts at `pos`.
pub open spec fn spec_read_str(b: Seq<u8>, pos: int) -> Result<(Seq<char>, int), DecodeError> {
    match spec_read_bytes(b, pos) {
        Err(e) => Err(e),
        Ok((v, p)) => if valid_utf8(v) {
            Ok((decode_utf8(v), p))
        } else {
            Err(DecodeError::InvalidUtf8)
        },
    }
}

/// The end of decoding: the value, unless bytes remain after `pos`.
pub open spec fn spec_finish(b: Seq<u8>, pos: int, ix: InstructionView) -> Result<
    InstructionView,
    DecodeError,
> {
    if pos < b.len() {
        Err(DecodeError::TrailingBytes)
    } else {
        Ok(ix)
    }
}

/// What decoding a byte sequence as an instruction gives.
pub open spec fn spec_decode_instruction(b: Seq<u8>) -> Result<InstructionView, DecodeError> {
    if b.len() < 1 {
        Err(DecodeError::UnexpectedEnd)
    } else if b[0] == 0 {
        match spec_read_str(b, 1) {
            Err(e) => Err(e),
            Ok((peer_id, pos_a)) => match spec_read_u64(b, pos_a) {
                Err(e) => Err(e),
                Ok((amount, pos_b)) => match spec_read_str(b, pos_b) {
                    Err(e) => Err(e),
                    Ok((recipient, pos_c)) => spec_finish(
                        b,
                        pos_c,
                        InstructionView::Native { peer_id, amount, recipient },
                    ),
                },
            },
        }
    } else if b[0] == 1 {
        match spec_read_str(b, 1) {
            Err(e) => Err(e),
            Ok((peer_id, pos_a)) => match spec_read_str(b, pos_a) {
                Err(e) => Err(e),
                Ok((token_mint, pos_b)) => match spec_read_u64(b, pos_b) {
                    Err(e) => Err(e),
                    Ok((amount, pos_c)) => match spec_read_str(b, pos_c) {
                        Err(e) => Err(e),
                        Ok((recipient, pos_d)) => spec_finish(
                            b,
                            pos_d,
                            InstructionView::Token { peer_id, token_mint, amount, recipient },
                        ),
                    },
                },
            },
        }
    } else if b[0] == 2 {
        spec_finish(b, 1, InstructionView::Invalid)
    } else {
        Err(DecodeError::UnknownTag)
    }
}

/// Relies on `String::from_utf8`: it succeeds exactly on valid UTF-8, and the
/// string it returns holds the characters those bytes encode.
#[verifier::external_body]
fn string_from_utf8(v: Vec<u8>) -> (r: Option<String>)
    ensures
        r is Some <==> valid_utf8(v@),
        r matches Some(s) ==> s@ == decode_utf8(v@),
{
    String::from_utf8(v).ok()
}

/// Appends the encoding of a string.
fn write_str(out: &mut Vec<u8>, s: &String)
    requires
        encode_utf8(s@).len() <= u32::MAX,
    ensures
        final(out)@ == old(out)@ + spec_encode_str(s@),
{
    write_bytes(out, s.as_str().as_bytes());
}

/// Reads the string that starts at `pos`.
fn read_str(b: &[u8], pos: usize) -> (r: Result<(String, usize), DecodeError>)
    requires
        pos <= b@.len(),
    ensures
        match r {
            Ok((s, p)) => spec_read_str(b@, pos as int) == Ok::<(Seq<char>, int), DecodeError>(
                (s@, p as int),
            ),
            Err(e) => spec_read_str(b@, pos as int) == Err::<(Seq<char>, int), DecodeError>(e),
        },
{
    match read_bytes(b, pos) {
        Err(e) => Err(e),
        Ok((v, p)) => match string_from_utf8(v) {
            Some(s) => Ok((s, p)),
            None => Err(DecodeError::InvalidUtf8),
        },
    }
}

/// The number of UTF-8 bytes of a string.
fn utf8_len(s: &String) -> (r: usize)
    ensures
        r == encode_utf8(s@).len(),
{
    s.as_str().as_bytes().len()
}


impl StateChanIx {
    /// Whether the instruction can be encoded into an envelope's payload.
    pub fn is_encodable(&self) -> (r: bool)
        ensures
            r == self@.wf(),
    {
        match self {
            StateChanIx::NativeSOLTransfer(t) => {
                let total: u128 = 17u128 + utf8_len(&t.peer_id) as u128 + utf8_len(
                    &t.recipient,
                ) as u128;
                total <= u32::MAX as u128
            },
            StateChanIx::SPLTokenTransfer(t) => {
                let total: u128 = 21u128 + utf8_len(&t.peer_id) as u128 + utf8_len(&t.token_mint)
                    as u128 + utf8_len(&t.recipient) as u128;
                total <= u32::MAX as u128
            },
            StateChanIx::Invalid => true,
        }
    }

    /// The bytes of this instruction on the wire.
    pub fn encode(&self) -> (r: Vec<u8>)
        requires
            self@.wf(),
        ensures
            r@ == spec_encode_instruction(self@),
    {
        let mut out: Vec<u8> = Vec::new();
        match self {
            StateChanIx::NativeSOLTransfer(t) => {
                out.push(0u8);
                write_str(&mut out, &t.peer_id);
                write_u64(&mut out, t.amount);
                write_str(&mut out, &t.recipient);
            },
            StateChanIx::SPLTokenTransfer(t) => {
                out.push(1u8);
                write_str(&mut out, &t.peer_id);
                write_str(&mut out, &t.token_mint);
                write_u64(&mut out, t.amount);
                write_str(&mut out, &t.recipient);
            },
            StateChanIx::Invalid => {
                out.push(2u8);
            },
        }
        proof {
            assert(out@ =~= spec_encode_instruction(self@));
        }
        out
    }

    /// Decodes an instruction, failing on an unknown tag, a string that is
    /// not UTF-8, a buffer that ends early, or bytes left over.
    pub fn decode(bytes: &[u8]) -> (r: Result<StateChanIx, DecodeError>)
        ensures
            match r {
                Ok(ix) => spec_decode_instruction(bytes@) == Ok::<InstructionView, DecodeError>(
                    ix@,
                ),
                Err(e) => spec_decode_instruction(bytes@) == Err::<InstructionView, DecodeError>(
                    e,
                ),
            },
    {
        if bytes.len() < 1 {
            return Err(DecodeError::UnexpectedEnd);
        }
        let ix = if bytes[0] == 0 {
            let (peer_id, pos_a) = match read_str(bytes, 1) {
                Ok(x) => x,
                Err(e) => {
                    return Err(e);
                },
            };
            let (amount, pos_b) = match read_u64(bytes, pos_a) {
                Ok(x) => x,
                Err(e) => {
                    return Err(e);
                },
            };
            let (recipient, pos_c) = match read_str(bytes, pos_b) {
                Ok(x) => x,
                Err(e) => {
                    return Err(e);
                },
            };
            if pos_c < bytes.len() {
                return Err(DecodeError::TrailingBytes);
            }
            StateChanIx::NativeSOLTransfer(NativeSOLTransfer { peer_id, amount, recipient })
        } else if bytes[0] == 1 {
            let (peer_id, pos_a) = match read_str(bytes, 1) {
                Ok(x) => x,
                Err(e) => {
                    return Err(e);
                },
            };
            let (token_mint, pos_b) = match read_str(bytes, pos_a) {
                Ok(x) => x,
                Err(e) => {
                    return Err(e);
                },
            };
            let (amount, pos_c) = match read_u64(bytes, pos_b) {
                Ok(x) => x,
                Err(e) => {
                    return Err(e);
                },
            };
            let (recipient, pos_d) = match read_str(bytes, pos_c) {
                Ok(x) => x,
                Err(e) => {
                    return Err(e);
                },
            };
            if pos_d < bytes.len() {
                return Err(DecodeError::TrailingBytes);
            }
            StateChanIx::SPLTokenTransfer(
                SPLTokenTransfer { peer_id, token_mint, amount, recipient },
            )
        } else if bytes[0] == 2 {
            if 1 < bytes.len() {
                return Err(DecodeError::TrailingBytes);
            }
            StateChanIx::Invalid
        } else {
            return Err(DecodeError::UnknownTag);
        };
        Ok(ix)
    }
}

/// Reading back an encoded string at any position yields it and the
/// position just after it.
proof fn lemma_read_encoded_str(pre: Seq<u8>, s: Seq<char>, post: Seq<u8>)
    requires
        encode_utf8(s).len() <= u32::MAX,
    ensures
        spec_read_str(pre + spec_encode_str(s) + post, pre.len() as int) == Ok::<
            (Seq<char>, int),
            DecodeError,
        >((s, (pre.len() + spec_encode_str(s).len()) as int)),
{
    broadcast use encode_utf8_valid_utf8, encode_utf8_decode_utf8;

    lemma_auto_spec_u32_to_from_le_bytes();
    lemma_read_encoded_bytes(pre, encode_utf8(s), post);
}

/// The encoding of an instruction that can be encoded fits an envelope's
/// payload.
pub proof fn lemma_instruction_fits_payload(ix: InstructionView)
    requires
        ix.wf(),
    ensures
        spec_encode_instruction(ix).len() <= u32::MAX,
{
    lemma_auto_spec_u32_to_from_le_bytes();
    lemma_auto_spec_u64_to_from_le_bytes();
}

/// Every instruction that can be encoded decodes back to itself.
pub proof fn lemma_instruction_round_trip(ix: InstructionView)
    requires
        ix.wf(),
    ensures
        spec_decode_instruction(spec_encode_instruction(ix)) == Ok::<InstructionView, DecodeError>(
            ix,
        ),
{
    lemma_auto_spec_u32_to_from_le_bytes();
    lemma_auto_spec_u64_to_from_le_bytes();
    let b = spec_encode_instruction(ix);
    let e = Seq::<u8>::empty();
    match ix {
        InstructionView::Native { peer_id, amount, recipient } => {
            let h0 = seq![0u8];
            let h1 = h0 + spec_encode_str(peer_id);
            let h2 = h1 + spec_u64_to_le_bytes(amount);
            let tail1 = spec_u64_to_le_bytes(amount) + spec_encode_str(recipient);
            assert(b =~= h0 + spec_encode_str(peer_id) + tail1);
            lemma_read_encoded_str(h0, peer_id, tail1);
            assert(b =~= h1 + spec_u64_to_le_bytes(amount) + spec_encode_str(recipient));
            lemma_read_encoded_u64(h1, amount, spec_encode_str(recipient));
            assert(b =~= h2 + spec_encode_str(recipient) + e);
            lemma_read_encoded_str(h2, recipient, e);
        },
        InstructionView::Token { peer_id, token_mint, amount, recipient } => {
            let h0 = seq![1u8];
            let h1 = h0 + spec_encode_str(peer_id);
            let h2 = h1 + spec_encode_str(token_mint);
            let h3 = h2 + spec_u64_to_le_bytes(amount);
            let tail1 = spec_encode_str(token_mint) + spec_u64_to_le_bytes(amount)
                + spec_encode_str(recipient);
            let tail2 = spec_u64_to_le_bytes(amount) + spec_encode_str(recipient);
            assert(b =~= h0 + spec_encode_str(peer_id) + tail1);
            lemma_read_encoded_str(h0, peer_id, tail1);
            assert(b =~= h1 + spec_encode_str(token_mint) + tail2);
            lemma_read_encoded_str(h1, token_mint, tail2);
            assert(b =~= h2 + spec_u64_to_le_bytes(amount) + spec_encode_str(recipient));
            lemma_read_encoded_u64(h2, amount, spec_encode_str(recipient));
            assert(b =~= h3 + spec_encode_str(recipient) + e);
            lemma_read_encoded_str(h3, recipient, e);
        },
        InstructionView::Invalid => {},
    }
}

} // verus!
