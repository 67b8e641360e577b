//! The LSAG signature record and its verifier: the challenge chain is
//! recomputed around the whole ring and the signature is accepted exactly
//! when the chain closes on the declared first challenge.

use vstd::prelude::*;
use vstd::string::StringExecFns;

use crate::encoders::{deserialize_point, deserialize_ring, point_hex_ok, ring_ser, serialize_point,
    serialize_ring};
use crate::hash_to_curve::{hash_to_secp256k1, htc_spec};
use crate::hashes::{concat_strs, keccak256_of, keccak_256};
use crate::hexstr::hex_to_decimal;
use crate::key_image::flag_view;
use crate::points::{ec_add, ec_add_enc, ec_mul, ec_mul_enc, generator, generator_enc,
    is_identity_enc, Point};
use crate::radix::{all_hex_digits, be_val, bytes_of_hex, dec_str_of, hex_of_bytes, hex_val,
    lemma_be_val_of_bytes_of_hex, lemma_bytes_of_hex_of_bytes, lemma_hex_of_bytes_props,
    lemma_hex_val_of_hex_of_bytes};
use crate::scalars::{scalar_from_hex, secp_order, Scalar};

verus! {

/// A stringified LSAG signature, as the JSON envelope carries it: every
/// group element and scalar in hexadecimal.
#[allow(non_snake_case)]
#[derive(Clone, Debug)]
pub struct StringifiedLsag {
    pub message: String,
    pub ring: Vec<String>,
    pub c: String,
    pub responses: Vec<String>,
    pub keyImage: String,
    pub linkabilityFlag: String,
}

/// An LSAG signature over a ring of secp256k1 points.
#[derive(Clone, Debug)]
pub struct Lsag {
    pub ring: Vec<Point>,
    pub message: String,
    pub c0: Scalar,
    pub responses: Vec<Scalar>,
    pub key_image: Point,
    pub linkability_flag: Option<String>,
}

/// Parameters required for one step of the challenge chain.
pub struct Params {
    pub index: usize,
    pub previous_r: Scalar,
    pub previous_c: Scalar,
    pub previous_index: usize,
    pub linkability_flag: Option<String>,
    pub key_image: Point,
}

/// The signature together with its verification bit: what the zero-knowledge
/// program commits publicly.
#[derive(Clone, Debug)]
pub struct LsagData {
    pub ring: Vec<Point>,
    pub message: String,
    pub c0: Scalar,
    pub responses: Vec<Scalar>,
    pub key_image: Point,
    pub linkability_flag: Option<String>,
    pub verified: bool,
}

/// The challenge a Keccak digest yields: the digest bytes as a scalar, or
/// `None` when their value is not canonical.
pub open spec fn h2(pre: Seq<char>) -> Option<Seq<u8>> {
    let d = keccak256_of(pre);
    if be_val(d) < secp_order() {
        Some(d)
    } else {
        None
    }
}

/// One step of the challenge chain: from the response and challenge at ring
/// position `prev_idx`, the challenge at the next position.
pub open spec fn compute_c_spec(
    ring: Seq<Seq<u8>>,
    ser_ring: Seq<char>,
    message_digest: Seq<char>,
    prev_r: Seq<u8>,
    prev_c: Seq<u8>,
    prev_idx: int,
    flag: Seq<char>,
    key_image: Seq<u8>,
) -> Option<Seq<u8>>
    recommends
        0 <= prev_idx < ring.len(),
{
    if !all_hex_digits(message_digest) {
        None
    } else {
        let p1 = ec_add_enc(
            ec_mul_enc(generator_enc(), prev_r),
            ec_mul_enc(ring[prev_idx], prev_c),
        );
        match htc_spec(hex_of_bytes(ring[prev_idx]) + flag) {
            None => None,
            Some(h) => {
                let p2 = ec_add_enc(ec_mul_enc(h, prev_r), ec_mul_enc(key_image, prev_c));
                h2(
                    ser_ring + dec_str_of(hex_val(message_digest)) + hex_of_bytes(p1)
                        + hex_of_bytes(p2),
                )
            },
        }
    }
}

/// The challenge chain walked from ring position `i` with running challenge
/// `c`, to its final value; `None` if any step fails.
pub open spec fn chain_from(
    ring: Seq<Seq<u8>>,
    message: Seq<char>,
    responses: Seq<Seq<u8>>,
    flag: Seq<char>,
    key_image: Seq<u8>,
    i: int,
    c: Seq<u8>,
) -> Option<Seq<u8>>
    decreases ring.len() - i,
{
    if 0 <= i < ring.len() && ring.len() == responses.len() {
        match compute_c_spec(
            ring,
            ring_ser(ring),
            hex_of_bytes(keccak256_of(message)),
            responses[i],
            c,
            i,
            flag,
            key_image,
        ) {
            None => None,
            Some(c2) => chain_from(ring, message, responses, flag, key_image, i + 1, c2),
        }
    } else {
        Some(c)
    }
}

/// What it means for an LSAG signature, given by its views, to verify: the
/// ring and responses have equal length at least two, the key image is not
/// the identity, and the challenge chain closes on the declared challenge.
pub open spec fn verify_spec(
    ring: Seq<Seq<u8>>,
    message: Seq<char>,
    c0: Seq<u8>,
    responses: Seq<Seq<u8>>,
    key_image: Seq<u8>,
    flag: Seq<char>,
) -> bool {
    &&& ring.len() == responses.len()
    &&& ring.len() >= 2
    &&& !is_identity_enc(key_image)
    &&& chain_from(ring, message, responses, flag, key_image, 0, c0) == Some(c0)
}

/// The verdict on a signature record: `verify_spec` over its views.
pub open spec fn lsag_verify_spec(sig: Lsag) -> bool {
    verify_spec(
        sig.ring.deep_view(),
        sig.message@,
        sig.c0@,
        sig.responses.deep_view(),
        sig.key_image@,
        flag_view(sig.linkability_flag),
    )
}

/// Computes the next challenge of the chain from the previous one.
///
/// `None` exactly when a step cannot be completed: the message digest is
/// not hexadecimal, the ring member hashes to no curve point within the
/// bounded tries, or the Keccak digest is not a canonical scalar.
pub fn compute_c(
    ring: &Vec<Point>,
    serialized_ring: String,
    message_digest: String,
    params: &Params,
) -> (r: Option<Scalar>)
    requires
        params.previous_index < ring@.len(),
    ensures
        ({
            let spec_r = compute_c_spec(
                ring.deep_view(),
                serialized_ring@,
                message_digest@,
                params.previous_r@,
                params.previous_c@,
                params.previous_index as int,
                flag_view(params.linkability_flag),
                params.key_image@,
            );
            match r {
                Some(c) => spec_r == Some(c@),
                None => spec_r is None,
            }
        }),
{
    let g = generator();
    let member = &ring[params.previous_index];
    proof {
        assert(ring.deep_view()[params.previous_index as int] == ring@[params.previous_index as int]@);
    }
    let gr = ec_mul(&g, &params.previous_r);
    let mc = ec_mul(member, &params.previous_c);
    let point = ec_add(&gr, &mc);

    let mut htc_input = serialize_point(member);
    match &params.linkability_flag {
        Some(f) => htc_input.append(f.as_str()),
        None => {
            proof {
                assert(htc_input@ + flag_view(params.linkability_flag) =~= htc_input@);
            }
        },
    }
    let mapped = match hash_to_secp256k1(htc_input.as_str()) {
        Some(m) => m,
        None => {
            return None;
        },
    };

    let decimal_digest = match hex_to_decimal(message_digest.as_str()) {
        Ok(d) => d,
        Err(_) => {
            return None;
        },
    };

    let hr = ec_mul(&mapped, &params.previous_r);
    let kc = ec_mul(&params.key_image, &params.previous_c);
    let point2 = ec_add(&hr, &kc);

    let mut hash_content = String::new();
    hash_content.append(serialized_ring.as_str());
    hash_content.append(decimal_digest.as_str());
    let sp1 = serialize_point(&point);
    hash_content.append(sp1.as_str());
    let sp2 = serialize_point(&point2);
    hash_content.append(sp2.as_str());

    let mut input: Vec<String> = Vec::new();
    input.push(hash_content);
    let hash = keccak_256(&input);
    proof {
        let dv = input.deep_view();
        assert(dv.len() == input@.len());
        assert(dv[0] == input@[0]@);
        assert(dv.drop_last() =~= Seq::<Seq<char>>::empty());
        assert(concat_strs(Seq::<Seq<char>>::empty()) =~= Seq::<char>::empty());
        assert(dv.last() == dv[0]);
        assert(concat_strs(dv) =~= dv[0]);
        assert(dv[0] =~= serialized_ring@ + dec_str_of(hex_val(message_digest@)) + hex_of_bytes(
            point@,
        ) + hex_of_bytes(point2@));
        let d = keccak256_of(concat_strs(dv));
        assert(d.len() == 32);
        lemma_hex_of_bytes_props(d);
        lemma_hex_val_of_hex_of_bytes(d);
        lemma_bytes_of_hex_of_bytes(d);
        assert(hex_of_bytes(d).len() == 64);
        assert(htc_input@ =~= hex_of_bytes(ring.deep_view()[params.previous_index as int])
            + flag_view(params.linkability_flag));
    }
    match scalar_from_hex(hash.as_str()) {
        Ok(s) => Some(s),
        Err(_) => None,
    }
}

/// Verifies a ring signature: recomputes the whole challenge chain and
/// accepts exactly when it closes on `c0`. Returns `true` or `false`,
/// never raises, and depends on the signature record alone.
pub fn verify_lsag(signature: Lsag) -> (r: bool)
    ensures
        r == lsag_verify_spec(signature),
{
    if signature.ring.len() != signature.responses.len() {
        return false;
    }
    if signature.ring.len() < 2 {
        return false;
    }
    if signature.key_image.is_identity() {
        return false;
    }

    let mut msg_input: Vec<String> = Vec::new();
    msg_input.push(signature.message.clone());
    let message_digest = keccak_256(&msg_input);
    proof {
        let dv = msg_input.deep_view();
        assert(dv.len() == msg_input@.len());
        assert(dv[0] == msg_input@[0]@);
        assert(dv.drop_last() =~= Seq::<Seq<char>>::empty());
        assert(concat_strs(Seq::<Seq<char>>::empty()) =~= Seq::<char>::empty());
        assert(dv.last() == dv[0]);
        assert(concat_strs(dv) =~= signature.message@);
    }

    let serialized_ring = serialize_ring(&signature.ring);

    let ghost rv = signature.ring.deep_view();
    let ghost sv = signature.responses.deep_view();
    let ghost fv = flag_view(signature.linkability_flag);

    let mut last_computed_c = signature.c0.clone();
    let mut i: usize = 0;
    while i < signature.ring.len()
        invariant
            i <= signature.ring@.len(),
            signature.ring@.len() == signature.responses@.len(),
            rv == signature.ring.deep_view(),
            sv == signature.responses.deep_view(),
            fv == flag_view(signature.linkability_flag),
            rv.len() == signature.ring@.len(),
            sv.len() == signature.responses@.len(),
            message_digest@ == hex_of_bytes(keccak256_of(signature.message@)),
            serialized_ring@ == ring_ser(rv),
            chain_from(rv, signature.message@, sv, fv, signature.key_image@, 0, signature.c0@)
                == chain_from(
                rv,
                signature.message@,
                sv,
                fv,
                signature.key_image@,
                i as int,
                last_computed_c@,
            ),
        decreases signature.ring@.len() - i,
    {
        let flag_copy: Option<String> = match &signature.linkability_flag {
            Some(f) => Some(f.clone()),
            None => None,
        };
        let params = Params {
            index: (i + 1) % signature.ring.len(),
            previous_r: signature.responses[i].clone(),
            previous_c: last_computed_c.clone(),
            previous_index: i,
            key_image: signature.key_image.clone(),
            linkability_flag: flag_copy,
        };
        proof {
            assert(sv[i as int] == signature.responses@[i as int]@);
        }
        let c = match compute_c(
            &signature.ring,
            serialized_ring.clone(),
            message_digest.clone(),
            &params,
        ) {
            Some(c) => c,
            None => {
                return false;
            },
        };
        last_computed_c = c;
        i += 1;
    }
    signature.c0.eq_scalar(&last_computed_c)
}

/// Whether every textual field of a stringified signature parses: ring
/// members and key image as points, `c` and the responses as scalars.
pub open spec fn stringified_ok(json: StringifiedLsag) -> bool {
    &&& forall|i: int| 0 <= i < json.ring@.len() ==> point_hex_ok(json.ring.deep_view()[i])
    &&& scalar_hex_ok(json.c@)
    &&& forall|i: int| 0 <= i < json.responses@.len() ==> scalar_hex_ok(
        json.responses.deep_view()[i],
    )
    &&& point_hex_ok(json.keyImage@)
}

/// Whether a hexadecimal string names a canonical scalar.
pub open spec fn scalar_hex_ok(s: Seq<char>) -> bool {
    s.len() == 64 && all_hex_digits(s) && hex_val(s) < secp_order()
}

/// Parses a stringified signature into a signature record; `None` when any
/// field does not parse. The parsed views are the byte forms of the
/// hexadecimal fields, and the tag is carried over as present.
pub fn lsag_from_stringified(json: &StringifiedLsag) -> (r: Option<Lsag>)
    ensures
        r is Some <==> stringified_ok(*json),
        r matches Some(sig) ==> {
            &&& sig.ring.deep_view().len() == json.ring@.len()
            &&& forall|i: int|
                0 <= i < json.ring@.len() ==> sig.ring.deep_view()[i] == bytes_of_hex(
                    json.ring.deep_view()[i],
                )
            &&& sig.message@ == json.message@
            &&& sig.c0@ == bytes_of_hex(json.c@)
            &&& sig.responses.deep_view().len() == json.responses@.len()
            &&& forall|i: int|
                0 <= i < json.responses@.len() ==> sig.responses.deep_view()[i] == bytes_of_hex(
                    json.responses.deep_view()[i],
                )
            &&& sig.key_image@ == bytes_of_hex(json.keyImage@)
            &&& flag_view(sig.linkability_flag) == json.linkabilityFlag@
        },
{
    let ring_points = match deserialize_ring(&json.ring) {
        Ok(points) => points,
        Err(_) => {
            return None;
        },
    };
    let key_image = match deserialize_point(json.keyImage.clone()) {
        Ok(p) => p,
        Err(_) => {
            return None;
        },
    };
    let c0 = match scalar_from_hex(json.c.as_str()) {
        Ok(s) => s,
        Err(_) => {
            return None;
        },
    };
    let mut responses: Vec<Scalar> = Vec::new();
    let mut i: usize = 0;
    while i < json.responses.len()
        invariant
            i <= json.responses@.len(),
            responses@.len() == i,
            forall|k: int| 0 <= k < i ==> scalar_hex_ok(json.responses.deep_view()[k]),
            forall|k: int|
                0 <= k < i ==> responses.deep_view()[k] == bytes_of_hex(
                    json.responses.deep_view()[k],
                ),
        decreases json.responses@.len() - i,
    {
        let piece: &String = &json.responses[i];
        proof {
            assert(json.responses.deep_view()[i as int] == json.responses@[i as int]@);
        }
        let s = match scalar_from_hex(piece.as_str()) {
            Ok(s) => s,
            Err(_) => {
                return None;
            },
        };
        let ghost pre = responses@;
        let ghost pre_dv = responses.deep_view();
        responses.push(s);
        proof {
            let dvp = responses.deep_view();
            assert forall|k: int| 0 <= k < i + 1 implies dvp[k] == bytes_of_hex(
                json.responses.deep_view()[k],
            ) by {
                assert(dvp[k] == responses@[k]@);
                if k < i {
                    assert(responses@[k] == pre[k]);
                    assert(pre_dv[k] == pre[k]@);
                }
            }
        }
        i += 1;
    }
    Some(
        Lsag {
            ring: ring_points,
            message: json.message.clone(),
            c0,
            responses,
            key_image,
            linkability_flag: Some(json.linkabilityFlag.clone()),
        },
    )
}

/// Verifies a stringified signature: parses every field and runs the
/// verifier; any field that does not parse yields `false`.
pub fn verify_stringified_lsag(json: &StringifiedLsag) -> (r: bool)
    ensures
        r == (stringified_ok(*json) && {
            let ring = json.ring.deep_view().map_values(|s: Seq<char>| bytes_of_hex(s));
            let responses = json.responses.deep_view().map_values(|s: Seq<char>| bytes_of_hex(s));
            verify_spec(
                ring,
                json.message@,
                bytes_of_hex(json.c@),
                responses,
                bytes_of_hex(json.keyImage@),
                json.linkabilityFlag@,
            )
        }),
{
    let sig = match lsag_from_stringified(json) {
        Some(s) => s,
        None => {
            return false;
        },
    };
    proof {
        assert(sig.ring.deep_view() =~= json.ring.deep_view().map_values(
            |s: Seq<char>| bytes_of_hex(s),
        ));
        assert(sig.responses.deep_view() =~= json.responses.deep_view().map_values(
            |s: Seq<char>| bytes_of_hex(s),
        ));
    }
    verify_lsag(sig)
}

/// Packages a signature with its verification bit: the public commitment.
pub fn make_lsag_data(signature: Lsag, verified: bool) -> (r: LsagData)
    ensures
        r.ring.deep_view() == signature.ring.deep_view(),
        r.message@ == signature.message@,
        r.c0@ == signature.c0@,
        r.responses.deep_view() == signature.responses.deep_view(),
        r.key_image@ == signature.key_image@,
        r.linkability_flag == signature.linkability_flag,
        r.verified == verified,
{
    LsagData {
        ring: signature.ring,
        message: signature.message,
        c0: signature.c0,
        responses: signature.responses,
        key_image: signature.key_image,
        linkability_flag: signature.linkability_flag,
        verified,
    }
}

} // verus!
