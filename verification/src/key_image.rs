//! The key image `I = x · H₁(encode(P) ‖ tag)`, the linkability witness of
//! the scheme: it depends on the private key and the tag alone, so two
//! signatures by the same pair share it, whatever they sign.

use vstd::prelude::*;
use vstd::string::StringExecFns;

use crate::errors::LsagError;
use crate::encoders::serialize_point;
use crate::hash_to_curve::{hash_to_secp256k1, htc_spec};
use crate::hashes::{sha256_digest, sha256_of};
use crate::points::{ec_mul, ec_mul_enc, generator, generator_enc, Point};
use crate::radix::{be_val, hex_of_bytes, le_val, pow256};
use crate::scalars::Scalar;

verus! {

/// The view of an optional linkability tag: the tag's characters, or the
/// empty string when absent.
pub open spec fn flag_view(flag: Option<String>) -> Seq<char> {
    match flag {
        Some(s) => s@,
        None => Seq::empty(),
    }
}

/// The encoding of the key image of a private key under a tag:
/// `x · H₁(encode(x·G) ‖ tag)`; `None` only when the hash-to-curve map
/// exhausts its bounded tries.
pub open spec fn key_image_spec(x: Seq<u8>, tag: Seq<char>) -> Option<Seq<u8>> {
    let p = ec_mul_enc(generator_enc(), x);
    match htc_spec(hex_of_bytes(p) + tag) {
        Some(h) => Some(ec_mul_enc(h, x)),
        None => None,
    }
}

/// The selection value drawn from a key image: the first eight bytes of the
/// SHA-256 of its encoding, read little-endian.
pub open spec fn key_image_u64(enc: Seq<u8>) -> nat {
    le_val(sha256_of(enc).subrange(0, 8))
}

/// The includer-lottery bit: with `modulo = max(1, count / target)`, the
/// key image is selected when its selection value is divisible by `modulo`.
pub open spec fn is_includer_spec(enc: Seq<u8>, validator_count: nat, target: nat) -> bool
    recommends
        target > 0,
{
    let quot = validator_count / target;
    let modulo: nat = if quot == 0 {
        1
    } else {
        quot
    };
    key_image_u64(enc) % modulo == 0
}

/// A key image: the curve point that links signatures of one `(key, tag)`.
#[derive(Clone, Debug, PartialEq, Eq)]
pub struct KeyImage(pub Point);

impl KeyImage {
    /// Derives the key image of a private key under an optional tag.
    ///
    /// Fails only on a zero private key, or if the hash-to-curve map
    /// exhausts its bounded tries.
    pub fn from_private_key(private_key: &Scalar, linkability_flag: Option<String>) -> (r: Result<
        KeyImage,
        LsagError,
    >)
        ensures
            r is Ok <==> (be_val(private_key@) != 0 && key_image_spec(
                private_key@,
                flag_view(linkability_flag),
            ) is Some),
            r matches Ok(ki) ==> key_image_spec(private_key@, flag_view(linkability_flag))
                == Some(ki.0@),
            r is Err ==> r == Err::<KeyImage, LsagError>(LsagError::BadInput),
    {
        if private_key.is_zero() {
            return Err(LsagError::BadInput);
        }
        let g = generator();
        let public_key = ec_mul(&g, private_key);
        let mut data = serialize_point(&public_key);
        match &linkability_flag {
            Some(f) => data.append(f.as_str()),
            None => {
                proof {
                    assert(data@ + flag_view(linkability_flag) =~= data@);
                }
            },
        }
        let mapped = match hash_to_secp256k1(data.as_str()) {
            Some(p) => p,
            None => {
                return Err(LsagError::BadInput);
            },
        };
        let key_image_point = ec_mul(&mapped, private_key);
        Ok(KeyImage(key_image_point))
    }

    /// The SEC1 bytes of the key image, for use in predicates.
    pub fn to_bytes(&self) -> (r: Vec<u8>)
        ensures
            r@ == self.0@,
    {
        self.0.to_encoded_bytes()
    }

    pub fn point(&self) -> (r: Point)
        ensures
            r@ == self.0@,
    {
        self.0.clone()
    }

    pub fn from_point(point: Point) -> (r: KeyImage)
        ensures
            r.0@ == point@,
    {
        KeyImage(point)
    }

    /// The SHA-256 digest of the key image's encoding.
    pub fn hash(&self) -> (r: [u8; 32])
        ensures
            r@ == sha256_of(self.0@),
    {
        let bytes = self.to_bytes();
        sha256_digest(&bytes)
    }

    /// The selection value: the first eight digest bytes, little-endian.
    pub fn hash_to_u64(&self) -> (r: u64)
        ensures
            r as nat == key_image_u64(self.0@),
    {
        let h = self.hash();
        let mut result: u64 = 0;
        let mut j: usize = 8;
        proof {
            assert(h@.subrange(8, 8) =~= Seq::<u8>::empty());
        }
        while j > 0
            invariant
                j <= 8,
                h@.len() == 32,
                h@ == sha256_of(self.0@),
                result as nat == le_val(h@.subrange(j as int, 8)),
                result < pow256((8 - j) as nat),
            decreases j,
        {
            proof {
                crate::radix::lemma_le_val_bound(h@.subrange(j - 1, 8));
                assert(h@.subrange(j - 1, 8).first() == h@[j - 1]);
                assert(h@.subrange(j - 1, 8).drop_first() =~= h@.subrange(j as int, 8));
                assert(pow256(8) == 18446744073709551616) by {
                    reveal_with_fuel(pow256, 9);
                }
                assert(pow256((8 - (j - 1)) as nat) == 256 * pow256((8 - j) as nat));
                assert(pow256((8 - (j - 1)) as nat) <= pow256(8)) by {
                    crate::radix::lemma_pow256_le((8 - (j - 1)) as nat, 8);
                }
            }
            result = (h[j - 1] as u64) + result * 256;
            j -= 1;
        }
        proof {
            assert(h@.subrange(0, 8) =~= sha256_of(self.0@).subrange(0, 8));
        }
        result
    }
}

/// Tests whether a validator is selected as an includer for its key image:
/// deterministic in the key image, the validator count and the target.
pub fn is_includer_from_key_image(
    key_image: &KeyImage,
    validator_count: usize,
    target_includers: usize,
) -> (r: bool)
    requires
        target_includers > 0,
    ensures
        r == is_includer_spec(key_image.0@, validator_count as nat, target_includers as nat),
{
    let quot = validator_count / target_includers;
    let modulo: u64 = if quot == 0 {
        1
    } else {
        quot as u64
    };
    let random_value = key_image.hash_to_u64();
    random_value % modulo == 0
}

} // verus!
