//! The LSAG signer: draws a nonce and decoy responses, walks the challenge
//! chain once around the ring from the signer's position, and closes it
//! with the signer's private key. Only the signer touches randomness.

use vstd::prelude::*;
use vstd::string::StringExecFns;

use rand::RngCore;

use crate::errors::LsagError;
use crate::encoders::{serialize_point, serialize_ring};
use crate::hash_to_curve::{hash_to_secp256k1, htc_spec};
use crate::hexstr::hex_to_decimal;
use crate::hashes::keccak_256;
use crate::key_image::{flag_view, key_image_spec};
use crate::lsag_verifier::{compute_c, Lsag, Params};
use crate::points::{ec_mul, ec_mul_enc, generator, generator_enc, Point};
use crate::radix::{be_val, hex_of_bytes};
use crate::scalars::{scalar_from_be_bytes, scalar_from_hex, scalar_mul, scalar_sub, Scalar};

verus! {

/// The signer's secret material and ring position.
pub struct SigningDetails {
    pub private_key: Scalar,
    pub public_key: Point,
    pub index: usize,
}

/// Whether two ring members share an encoding.
pub open spec fn ring_has_duplicates(ring: Seq<Seq<u8>>) -> bool {
    exists|i: int, j: int| 0 <= i < j < ring.len() && ring[i] == ring[j]
}

/// The signer-side input conditions the scheme rejects outright: a ring
/// that is too short or holds a repeated member, or a zero private key.
pub open spec fn sign_bad_input(ring: Seq<Seq<u8>>, x: Seq<u8>) -> bool {
    ring.len() < 2 || ring_has_duplicates(ring) || be_val(x) == 0
}

/// Whether the declared signer position does not carry the public key of
/// the private key.
pub open spec fn signer_mismatch(ring: Seq<Seq<u8>>, x: Seq<u8>, index: int) -> bool {
    index >= ring.len() || ring[index] != ec_mul_enc(generator_enc(), x)
}

/// Whether every ring member hashes onto the curve within the bounded
/// tries of the hash-to-curve map.
pub open spec fn all_members_map(ring: Seq<Seq<u8>>, flag: Seq<char>) -> bool {
    forall|i: int| 0 <= i < ring.len() ==> htc_spec(hex_of_bytes(ring[i]) + flag) is Some
}

/// Relies on `rand::thread_rng` and `RngCore::fill_bytes`: 32 bytes from a
/// cryptographically strong source. Nothing is promised of their values.
#[verifier::external_body]
fn random_bytes_32() -> (r: Vec<u8>)
    ensures
        r@.len() == 32,
{
    let mut rng = rand::thread_rng();
    let mut data = [0u8; 32];
    rng.fill_bytes(&mut data);
    data.to_vec()
}

/// Draws random bytes until they name a canonical scalar, within a bounded
/// number of retries.
fn draw_scalar() -> (r: Option<Scalar>) {
    let mut tries: usize = 0;
    while tries < 64
        decreases 64 - tries,
    {
        let bytes = random_bytes_32();
        match scalar_from_be_bytes(&bytes) {
            Some(s) => {
                return Some(s);
            },
            None => {},
        }
        tries += 1;
    }
    None
}

/// Draws a canonical scalar that is not zero, within bounded retries.
fn draw_nonzero_scalar() -> (r: Option<Scalar>)
    ensures
        r matches Some(s) ==> be_val(s@) != 0,
{
    let mut tries: usize = 0;
    while tries < 64
        decreases 64 - tries,
    {
        match draw_scalar() {
            Some(s) => {
                if !s.is_zero() {
                    return Some(s);
                }
            },
            None => {},
        }
        tries += 1;
    }
    None
}

/// Generates a key pair: a nonzero canonical scalar drawn from the system's
/// randomness, rejected and redrawn until canonical, and its public point.
/// Fails only if the randomness source keeps yielding non-canonical draws
/// past the bounded retries.
pub fn generate_keypair() -> (r: Result<(Scalar, Point), LsagError>)
    ensures
        r matches Ok(pair) ==> pair.1@ == ec_mul_enc(generator_enc(), pair.0@) && be_val(pair.0@)
            != 0,
        r is Err ==> r == Err::<(Scalar, Point), LsagError>(LsagError::RngFailure),
{
    match draw_nonzero_scalar() {
        Some(s) => {
            let g = generator();
            let p = ec_mul(&g, &s);
            Ok((s, p))
        },
        None => Err(LsagError::RngFailure),
    }
}

/// Duplicates a ring, member by member.
fn clone_ring(ring: &Vec<Point>) -> (r: Vec<Point>)
    ensures
        r.deep_view() == ring.deep_view(),
        r@.len() == ring@.len(),
{
    let mut out: Vec<Point> = Vec::new();
    let mut i: usize = 0;
    while i < ring.len()
        invariant
            i <= ring@.len(),
            out@.len() == i,
            forall|k: int| 0 <= k < i ==> out.deep_view()[k] == ring.deep_view()[k],
        decreases ring@.len() - i,
    {
        let p = ring[i].clone();
        let ghost pre = out@;
        let ghost pre_dv = out.deep_view();
        out.push(p);
        proof {
            let dv = out.deep_view();
            assert forall|k: int| 0 <= k < i + 1 implies dv[k] == ring.deep_view()[k] by {
                assert(dv[k] == out@[k]@);
                assert(ring.deep_view()[k] == ring@[k]@);
                if k < i {
                    assert(out@[k] == pre[k]);
                    assert(pre_dv[k] == pre[k]@);
                }
            }
        }
        i += 1;
    }
    proof {
        assert(out.deep_view() =~= ring.deep_view());
    }
    out
}

/// Produces an LSAG signature for the designated ring position.
///
/// The error kind is pinned for every input: `BadInput` for a short or
/// repeated ring, a zero key, or a ring member the hash-to-curve map cannot
/// place; `InvalidSigner` when the position does not carry the key's public
/// point; `RngFailure` only on randomness-dependent failures, so on
/// acceptable inputs signing succeeds up to randomness.
pub fn sign_lsag(
    message: String,
    ring: &Vec<Point>,
    signing_details: &SigningDetails,
    linkability_flag: Option<String>,
) -> (r: Result<Lsag, LsagError>)
    ensures
        ({
            let rv = ring.deep_view();
            let x = signing_details.private_key@;
            let fv = flag_view(linkability_flag);
            let idx = signing_details.index as int;
            &&& (sign_bad_input(rv, x) ==> r == Err::<Lsag, LsagError>(LsagError::BadInput))
            &&& (!sign_bad_input(rv, x) && signer_mismatch(rv, x, idx) ==> r == Err::<
                Lsag,
                LsagError,
            >(LsagError::InvalidSigner))
            &&& (!sign_bad_input(rv, x) && !signer_mismatch(rv, x, idx) && !all_members_map(rv, fv)
                ==> r == Err::<Lsag, LsagError>(LsagError::BadInput))
            &&& (!sign_bad_input(rv, x) && !signer_mismatch(rv, x, idx) && all_members_map(rv, fv)
                ==> (r is Ok || r == Err::<Lsag, LsagError>(LsagError::RngFailure)))
            &&& (r matches Ok(sig) ==> {
                &&& !sign_bad_input(rv, x)
                &&& !signer_mismatch(rv, x, idx)
                &&& sig.ring.deep_view() == rv
                &&& sig.message@ == message@
                &&& sig.linkability_flag == linkability_flag
                &&& sig.responses@.len() == rv.len()
                &&& key_image_spec(x, fv) == Some(sig.key_image@)
            })
        }),
{
    let ghost rv = ring.deep_view();
    let ghost x_spec = signing_details.private_key@;
    let ghost fv = flag_view(linkability_flag);
    let m = ring.len();
    proof {
        assert(rv.len() == ring@.len());
    }
    if m < 2 {
        return Err(LsagError::BadInput);
    }

    let mut i: usize = 0;
    while i < m
        invariant
            m == ring@.len(),
            rv == ring.deep_view(),
            i <= m,
            forall|a: int, b: int| 0 <= a < i && a < b < m ==> rv[a] != rv[b],
        decreases m - i,
    {
        let mut j: usize = i + 1;
        while j < m
            invariant
                m == ring@.len(),
                rv == ring.deep_view(),
                i < j <= m,
                forall|b: int| i < b < j ==> rv[i as int] != rv[b],
            decreases m - j,
        {
            if ring[i].eq_point(&ring[j]) {
                proof {
                    assert(rv[i as int] == ring@[i as int]@);
                    assert(rv[j as int] == ring@[j as int]@);
                    assert(ring_has_duplicates(rv));
                }
                return Err(LsagError::BadInput);
            }
            proof {
                assert(rv[i as int] == ring@[i as int]@);
                assert(rv[j as int] == ring@[j as int]@);
            }
            j += 1;
        }
        i += 1;
    }
    proof {
        assert(!ring_has_duplicates(rv));
    }

    if signing_details.private_key.is_zero() {
        return Err(LsagError::BadInput);
    }

    if signing_details.index >= m {
        return Err(LsagError::InvalidSigner);
    }
    let signer_index = signing_details.index;
    let g = generator();
    let public_key = ec_mul(&g, &signing_details.private_key);
    if !ring[signer_index].eq_point(&public_key) {
        proof {
            assert(rv[signer_index as int] == ring@[signer_index as int]@);
        }
        return Err(LsagError::InvalidSigner);
    }
    proof {
        assert(rv[signer_index as int] == ring@[signer_index as int]@);
        assert(!signer_mismatch(rv, x_spec, signer_index as int));
    }

    // Hash every ring member onto the curve; the signer's gives the key image.
    let mut hpoints: Vec<Point> = Vec::new();
    let mut i: usize = 0;
    while i < m
        invariant
            m == ring@.len(),
            m >= 2,
            rv == ring.deep_view(),
            fv == flag_view(linkability_flag),
            x_spec == signing_details.private_key@,
            !sign_bad_input(rv, x_spec),
            !signer_mismatch(rv, x_spec, signing_details.index as int),
            i <= m,
            hpoints@.len() == i,
            forall|k: int|
                0 <= k < i ==> htc_spec(hex_of_bytes(rv[k]) + fv) == Some(
                    #[trigger] hpoints.deep_view()[k],
                ),
        decreases m - i,
    {
        let mut data = serialize_point(&ring[i]);
        match &linkability_flag {
            Some(f) => data.append(f.as_str()),
            None => {
                proof {
                    assert(data@ + fv =~= data@);
                }
            },
        }
        proof {
            assert(rv[i as int] == ring@[i as int]@);
        }
        let mapped = match hash_to_secp256k1(data.as_str()) {
            Some(p) => p,
            None => {
                proof {
                    assert(!(htc_spec(hex_of_bytes(rv[i as int]) + fv) is Some));
                    assert(!all_members_map(rv, fv));
                }
                return Err(LsagError::BadInput);
            },
        };
        let ghost pre = hpoints@;
        let ghost pre_dv = hpoints.deep_view();
        hpoints.push(mapped);
        proof {
            let dv = hpoints.deep_view();
            assert forall|k: int| 0 <= k < i + 1 implies htc_spec(hex_of_bytes(rv[k]) + fv)
                == Some(#[trigger] dv[k]) by {
                assert(dv[k] == hpoints@[k]@);
                if k < i {
                    assert(hpoints@[k] == pre[k]);
                    assert(pre_dv[k] == pre[k]@);
                }
            }
        }
        i += 1;
    }

    proof {
        assert forall|k: int| 0 <= k < rv.len() implies htc_spec(hex_of_bytes(rv[k]) + fv)
            is Some by {
            assert(htc_spec(hex_of_bytes(rv[k]) + fv) == Some(hpoints.deep_view()[k]));
        }
        assert(all_members_map(rv, fv));
    }

    let key_image = ec_mul(&hpoints[signer_index], &signing_details.private_key);
    proof {
        assert(hpoints.deep_view()[signer_index as int] == hpoints@[signer_index as int]@);
        assert(rv[signer_index as int] == ec_mul_enc(generator_enc(), x_spec));
        assert(key_image_spec(x_spec, fv) == Some(key_image@));
    }

    // Draw the nonce and the decoy responses.
    let alpha = match draw_nonzero_scalar() {
        Some(a) => a,
        None => {
            return Err(LsagError::RngFailure);
        },
    };
    let mut responses: Vec<Scalar> = Vec::new();
    let mut i: usize = 0;
    while i < m
        invariant
            m == ring@.len(),
            rv == ring.deep_view(),
            fv == flag_view(linkability_flag),
            x_spec == signing_details.private_key@,
            !sign_bad_input(rv, x_spec),
            !signer_mismatch(rv, x_spec, signing_details.index as int),
            all_members_map(rv, fv),
            key_image_spec(x_spec, fv) == Some(key_image@),
            i <= m,
            responses@.len() == i,
        decreases m - i,
    {
        match draw_scalar() {
            Some(s) => responses.push(s),
            None => {
                return Err(LsagError::RngFailure);
            },
        }
        i += 1;
    }

    // Seed the challenge chain at the position after the signer.
    let mut msg_input: Vec<String> = Vec::new();
    msg_input.push(message.clone());
    let message_digest = keccak_256(&msg_input);
    let serialized_ring = serialize_ring(ring);

    let a_point = ec_mul(&g, &alpha);
    let b_point = ec_mul(&hpoints[signer_index], &alpha);
    let decimal_digest = match hex_to_decimal(message_digest.as_str()) {
        Ok(d) => d,
        Err(_) => {
            return Err(LsagError::RngFailure);
        },
    };
    let mut seed_content = String::new();
    seed_content.append(serialized_ring.as_str());
    seed_content.append(decimal_digest.as_str());
    let sp_a = serialize_point(&a_point);
    seed_content.append(sp_a.as_str());
    let sp_b = serialize_point(&b_point);
    seed_content.append(sp_b.as_str());
    let mut seed_input: Vec<String> = Vec::new();
    seed_input.push(seed_content);
    let seed_hash = keccak_256(&seed_input);
    let mut current_c = match scalar_from_hex(seed_hash.as_str()) {
        Ok(c) => c,
        Err(_) => {
            return Err(LsagError::RngFailure);
        },
    };

    let mut current_index = (signer_index + 1) % m;
    let mut c0 = current_c.clone();

    // Walk the remaining positions in cyclic order back to the signer.
    let mut step: usize = 1;
    while step < m
        invariant
            m == ring@.len(),
            m >= 2,
            rv == ring.deep_view(),
            fv == flag_view(linkability_flag),
            x_spec == signing_details.private_key@,
            !sign_bad_input(rv, x_spec),
            !signer_mismatch(rv, x_spec, signing_details.index as int),
            all_members_map(rv, fv),
            key_image_spec(x_spec, fv) == Some(key_image@),
            responses@.len() == m,
            current_index < m,
        decreases m - step,
    {
        if current_index == 0 {
            c0 = current_c.clone();
        }
        let flag_copy: Option<String> = match &linkability_flag {
            Some(f) => Some(f.clone()),
            None => None,
        };
        let params = Params {
            index: (current_index + 1) % m,
            previous_r: responses[current_index].clone(),
            previous_c: current_c.clone(),
            previous_index: current_index,
            linkability_flag: flag_copy,
            key_image: key_image.clone(),
        };
        let next_c = match compute_c(
            ring,
            serialized_ring.clone(),
            message_digest.clone(),
            &params,
        ) {
            Some(c) => c,
            None => {
                return Err(LsagError::RngFailure);
            },
        };
        current_c = next_c;
        current_index = (current_index + 1) % m;
        step += 1;
    }
    if current_index == 0 {
        c0 = current_c.clone();
    }

    // Close the ring at the signer's position.
    let closing = scalar_sub(&alpha, &scalar_mul(&current_c, &signing_details.private_key));
    responses.set(signer_index, closing);

    Ok(
        Lsag {
            ring: clone_ring(ring),
            message,
            c0,
            responses,
            key_image,
            linkability_flag,
        },
    )
}

} // verus!
