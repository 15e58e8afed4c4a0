//! Content-derived message identifiers for the broadcast overlay: two
//! publishes of the same bytes get the same identifier, so the overlay
//! delivers such a message once.

use vstd::prelude::*;

verus! {

/// The 64-bit hash that `std`'s unkeyed default hasher gives a byte slice.
pub uninterp spec fn content_hash(data: Seq<u8>) -> u64;

/// Relies on `BuildHasher::hash_one` with `BuildHasherDefault<DefaultHasher>`:
/// every `DefaultHasher` made by `new`/`default` starts in the same state, so
/// the hash depends on the bytes alone.
#[verifier::external_body]
fn hash_bytes(data: &[u8]) -> (r: u64)
    ensures
        r == content_hash(data@),
{
    std::hash::BuildHasher::hash_one(
        &std::hash::BuildHasherDefault::<std::collections::hash_map::DefaultHasher>::default(),
        data,
    )
}

/// The ASCII decimal digits of `n`, most significant first, without leading
/// zeros.
pub open spec fn spec_decimal(n: u64) -> Seq<u8>
    decreases n,
{
    if n < 10 {
        seq![(48 + n) as u8]
    } else {
        spec_decimal(n / 10).push((48 + n % 10) as u8)
    }
}

/// The ASCII decimal digits of `n`, most significant first.
pub fn decimal_digits(n: u64) -> (r: Vec<u8>)
    ensures
        r@ == spec_decimal(n),
    decreases n,
{
    if n < 10 {
        let mut v: Vec<u8> = Vec::new();
        v.push((48 + n) as u8);
        proof {
            assert(v@ =~= spec_decimal(n));
        }
        v
    } else {
        let mut v = decimal_digits(n / 10);
        v.push((48 + n % 10) as u8);
        v
    }
}

/// The identifier of a message: the decimal digits of the hash of its bytes.
pub fn message_id(data: &[u8]) -> (r: Vec<u8>)
    ensures
        r@ == spec_decimal(content_hash(data@)),
{
    decimal_digits(hash_bytes(data))
}

/// Publishing the same bytes twice yields the same identifier both times.
pub proof fn lemma_same_bytes_same_id(first: Seq<u8>, second: Seq<u8>)
    requires
        first == second,
    ensures
        spec_decimal(content_hash(first)) == spec_decimal(content_hash(second)),
{
}

} // verus!
