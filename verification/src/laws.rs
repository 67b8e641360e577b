//! The scheme's laws that hold by the shape of the contracts: linkability
//! of key images, and determinism of verification and of the includer
//! lottery.

use vstd::prelude::*;

use crate::key_image::{is_includer_spec, key_image_spec};
use crate::lsag_verifier::{verify_spec, Lsag};

verus! {

/// Linkability: any two signatures produced with the same private key and
/// the same linkability tag carry the same key image, whatever their
/// messages, rings or signer positions. The signer's contract pins each key
/// image to `key_image_spec` of the key and tag alone, so two such images
/// coincide.
pub proof fn lemma_key_image_linkability(sig1: Lsag, sig2: Lsag, x: Seq<u8>, tag: Seq<char>)
    requires
        key_image_spec(x, tag) == Some(sig1.key_image@),
        key_image_spec(x, tag) == Some(sig2.key_image@),
    ensures
        sig1.key_image@ == sig2.key_image@,
{
}

/// Determinism of verification: two runs of the verifier on the same
/// signature views return the same bit. The verifier's contract equates its
/// result with `verify_spec`, a function of the record alone.
pub proof fn lemma_verify_deterministic(
    ring: Seq<Seq<u8>>,
    message: Seq<char>,
    c0: Seq<u8>,
    responses: Seq<Seq<u8>>,
    key_image: Seq<u8>,
    flag: Seq<char>,
    r1: bool,
    r2: bool,
)
    requires
        r1 == verify_spec(ring, message, c0, responses, key_image, flag),
        r2 == verify_spec(ring, message, c0, responses, key_image, flag),
    ensures
        r1 == r2,
{
}

/// Determinism of the includer lottery: the selection bit depends on the
/// key image, the validator count and the target alone.
pub proof fn lemma_is_includer_deterministic(
    enc: Seq<u8>,
    validator_count: nat,
    target: nat,
    r1: bool,
    r2: bool,
)
    requires
        r1 == is_includer_spec(enc, validator_count, target),
        r2 == is_includer_spec(enc, validator_count, target),
    ensures
        r1 == r2,
{
}

} // verus!
