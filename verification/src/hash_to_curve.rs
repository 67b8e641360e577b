//! Deterministic map from a character string to a secp256k1 point: the
//! Keccak-256 digest of the input is taken as a candidate x coordinate and
//! adjusted, in a fixed order of bounded tries, until a point with even y
//! decompresses. Signer, verifier and key-image derivation all use this one
//! map, because it participates in the challenge chain.

use vstd::prelude::*;

use crate::hashes::{keccak256_digest, keccak256_of};
use crate::points::{lift_x_enc, lift_x_even, Point};

verus! {

/// The candidate x coordinate for try `k`: the digest with its final byte
/// stepped forward by `k`, wrapping.
pub open spec fn htc_candidate(d: Seq<u8>, k: nat) -> Seq<u8> {
    d.update(d.len() - 1, ((d.last() + k) % 256) as u8)
}

/// The first candidate, in try order, that decompresses to a point with
/// even y; `None` once the bounded tries are exhausted.
pub open spec fn htc_try(d: Seq<u8>, k: nat) -> Option<Seq<u8>>
    decreases 256 - k,
{
    if k >= 256 {
        None
    } else {
        match lift_x_enc(htc_candidate(d, k)) {
            Some(e) => Some(e),
            None => htc_try(d, (k + 1) as nat),
        }
    }
}

/// The point that a character string hashes to, or `None` in the
/// vanishingly unlikely event that all bounded tries fail.
pub open spec fn htc_spec(s: Seq<char>) -> Option<Seq<u8>> {
    htc_try(keccak256_of(s), 0)
}

/// Hashes a string deterministically onto the curve: same input, same
/// point; the result is never the identity.
pub fn hash_to_secp256k1(data: &str) -> (r: Option<Point>)
    ensures
        r matches Some(p) ==> htc_spec(data@) == Some(p@) && p@.len() == 65,
        r is None ==> htc_spec(data@) is None,
{
    let d = keccak256_digest(data);
    let mut k: usize = 0;
    while k < 256
        invariant
            d@ == keccak256_of(data@),
            d@.len() == 32,
            k <= 256,
            htc_try(d@, 0) == htc_try(d@, k as nat),
        decreases 256 - k,
    {
        let mut cand = d.clone();
        let stepped = ((d[31] as u16 + k as u16) % 256) as u8;
        cand.set(31, stepped);
        proof {
            assert(cand@ =~= htc_candidate(d@, k as nat));
        }
        match lift_x_even(&cand) {
            Some(p) => {
                return Some(p);
            },
            None => {},
        }
        k += 1;
    }
    None
}

} // verus!
