//! The includer lottery: a validator's key image, hashed with SHA-256, is
//! read as a little-endian number whose divisibility by
//! `max(1, validators / TARGET_N_INCLUDERS)` selects the validator.

use vstd::prelude::*;

use crate::errors::LsagError;
use crate::key_image::{is_includer_from_key_image, is_includer_spec, key_image_spec, KeyImage};
use crate::hashes::{sha256_digest, sha256_of};
use crate::points::Point;
use crate::radix::{le_val, lemma_le_val_bound, lemma_pow256_le, pow256};
use crate::scalars::Scalar;

verus! {

/// The target number of includers to select in the lottery.
pub const TARGET_N_INCLUDERS: usize = 64;

/// Represents the beacon chain state (simplified: only what the lottery reads).
pub struct BeaconState {
    /// The list of validators in the system.
    pub validators: Vec<Validator>,
    /// Current epoch.
    pub current_epoch: u64,
}

/// Represents a validator in the system.
pub struct Validator {
    /// The validator's public key.
    pub public_key: Point,
    /// Index in the validator registry.
    pub index: usize,
}

/// Represents a slot in the beacon chain.
pub type Slot = u64;

/// Represents an epoch in the beacon chain.
pub type Epoch = u64;

/// Compute the epoch at a given slot: thirty-two slots make an epoch.
pub fn compute_epoch_at_slot(slot: Slot) -> (r: Epoch)
    ensures
        r == slot / 32,
{
    slot / 32
}

/// Domain types for hashing.
#[allow(non_camel_case_types)]
pub enum Domain {
    /// Inclusion List domain.
    DOMAIN_IL,
}

/// The little-endian eight-byte rendering of a 64-bit number.
pub open spec fn le8_bytes(n: nat) -> Seq<u8> {
    Seq::new(8, |i: int| ((n / pow256(i as nat)) % 256) as u8)
}

/// The byte preimage whose SHA-256 is the inclusion-list domain: the ASCII
/// of "INCLUSION_LIST" followed by the epoch, little-endian.
pub open spec fn domain_preimage(epoch: nat) -> Seq<u8> {
    seq![
        73u8, 78, 67, 76, 85, 83, 73, 79, 78, 95, 76, 73, 83, 84,
    ] + le8_bytes(epoch)
}

/// The little-endian eight bytes of a 64-bit number.
fn u64_le_bytes(n: u64) -> (r: Vec<u8>)
    ensures
        r@ == le8_bytes(n as nat),
{
    let mut r: Vec<u8> = Vec::new();
    let mut v: u64 = n;
    let mut i: usize = 0;
    proof {
        assert(pow256(0) == 1);
    }
    while i < 8
        invariant
            i <= 8,
            r@.len() == i,
            v as nat == (n as nat) / pow256(i as nat),
            forall|k: int| 0 <= k < i ==> r@[k] == le8_bytes(n as nat)[k],
        decreases 8 - i,
    {
        r.push((v % 256) as u8);
        proof {
            assert(pow256((i + 1) as nat) == 256 * pow256(i as nat));
            lemma_pow256_le(0, i as nat);
            assert(pow256(i as nat) >= 1);
            vstd::arithmetic::div_mod::lemma_div_denominator(
                n as int,
                pow256(i as nat) as int,
                256,
            );
            assert((n as nat) / pow256(i as nat) / 256 == (n as nat) / pow256((i + 1) as nat));
        }
        v = v / 256;
        i += 1;
    }
    proof {
        assert(r@ =~= le8_bytes(n as nat));
    }
    r
}

/// Get the domain for signing based on the state and domain type: the
/// SHA-256 of the domain tag and the epoch.
pub fn get_domain(state: &BeaconState, domain_type: Domain, epoch: Epoch) -> (r: [u8; 32])
    ensures
        r@ == sha256_of(domain_preimage(epoch as nat)),
{
    let mut preimage: Vec<u8> = Vec::new();
    match domain_type {
        Domain::DOMAIN_IL => {
            preimage.push(73);
            preimage.push(78);
            preimage.push(67);
            preimage.push(76);
            preimage.push(85);
            preimage.push(83);
            preimage.push(73);
            preimage.push(79);
            preimage.push(78);
            preimage.push(95);
            preimage.push(76);
            preimage.push(73);
            preimage.push(83);
            preimage.push(84);
        },
    }
    let epoch_bytes = u64_le_bytes(epoch);
    let mut i: usize = 0;
    while i < epoch_bytes.len()
        invariant
            i <= epoch_bytes@.len(),
            epoch_bytes@ == le8_bytes(epoch as nat),
            preimage@ =~= domain_preimage(epoch as nat).take(14 + i),
        decreases epoch_bytes@.len() - i,
    {
        preimage.push(epoch_bytes[i]);
        i += 1;
    }
    proof {
        assert(preimage@ =~= domain_preimage(epoch as nat));
    }
    sha256_digest(&preimage)
}

/// Compute a signing root for a message with a domain: the SHA-256 of the
/// message followed by the domain.
pub fn compute_signing_root(message: &Vec<u8>, domain: [u8; 32]) -> (r: [u8; 32])
    ensures
        r@ == sha256_of(message@ + domain@),
{
    let mut preimage: Vec<u8> = Vec::new();
    let mut i: usize = 0;
    while i < message.len()
        invariant
            i <= message@.len(),
            preimage@ =~= message@.take(i as int),
        decreases message@.len() - i,
    {
        preimage.push(message[i]);
        i += 1;
    }
    let mut j: usize = 0;
    while j < 32
        invariant
            j <= 32,
            domain@.len() == 32,
            preimage@ =~= message@ + domain@.take(j as int),
        decreases 32 - j,
    {
        preimage.push(domain[j]);
        j += 1;
    }
    proof {
        assert(preimage@ =~= message@ + domain@);
    }
    sha256_digest(&preimage)
}

/// Convert the first eight bytes of a byte string to a u64, little-endian;
/// shorter strings are read whole.
pub fn bytes_to_uint64(bytes: &Vec<u8>) -> (r: u64)
    ensures
        r as nat == le_val(
            bytes@.subrange(
                0,
                if bytes@.len() < 8 {
                    bytes@.len() as int
                } else {
                    8
                },
            ),
        ),
{
    let n = if bytes.len() < 8 {
        bytes.len()
    } else {
        8
    };
    let mut result: u64 = 0;
    let mut j: usize = n;
    proof {
        assert(bytes@.subrange(n as int, n as int) =~= Seq::<u8>::empty());
    }
    while j > 0
        invariant
            j <= n <= 8,
            n <= bytes@.len(),
            result as nat == le_val(bytes@.subrange(j as int, n as int)),
            result < pow256((n - j) as nat),
        decreases j,
    {
        proof {
            lemma_le_val_bound(bytes@.subrange(j - 1, n as int));
            assert(bytes@.subrange(j - 1, n as int).first() == bytes@[j - 1]);
            assert(bytes@.subrange(j - 1, n as int).drop_first() =~= bytes@.subrange(
                j as int,
                n as int,
            ));
            assert(pow256(8) == 18446744073709551616) by {
                reveal_with_fuel(pow256, 9);
            }
            assert(pow256((n - (j - 1)) as nat) == 256 * pow256((n - j) as nat));
            lemma_pow256_le((n - (j - 1)) as nat, 8);
        }
        result = (bytes[j - 1] as u64) + result * 256;
        j -= 1;
    }
    result
}

/// Implementation of the includer selection logic: divisibility of the key
/// image's selection value by `max(1, validators / TARGET_N_INCLUDERS)`.
pub fn is_includer_impl(state: &BeaconState, key_image: &KeyImage) -> (r: bool)
    ensures
        r == is_includer_spec(key_image.0@, state.validators@.len() as nat, 64),
{
    is_includer_from_key_image(key_image, state.validators.len(), TARGET_N_INCLUDERS)
}

/// Check if a validator is an includer for a given slot: the key image of
/// its private key, under the empty tag, decides the lottery.
pub fn is_includer(state: &BeaconState, slot: Slot, private_key: &Scalar) -> (r: Result<
    bool,
    LsagError,
>)
    ensures
        r matches Ok(b) ==> (key_image_spec(private_key@, Seq::empty()) matches Some(enc) && b
            == is_includer_spec(enc, state.validators@.len() as nat, 64)),
        r is Err <==> (crate::radix::be_val(private_key@) == 0 || key_image_spec(
            private_key@,
            Seq::empty(),
        ) is None),
{
    let domain = get_domain(state, Domain::DOMAIN_IL, compute_epoch_at_slot(slot));
    let slot_bytes = u64_le_bytes(slot);
    let _signing_root = compute_signing_root(&slot_bytes, domain);
    let key_image = match KeyImage::from_private_key(private_key, None) {
        Ok(ki) => ki,
        Err(e) => {
            return Err(e);
        },
    };
    Ok(is_includer_impl(state, &key_image))
}

} // verus!
