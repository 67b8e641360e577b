//! End-to-end behaviour of the LSAG scheme: signing, verification, the
//! binding of signatures to their ring, message and responses, and the
//! linkability of key images.

use zk_focil::errors::LsagError;
use zk_focil::hexstr::bytes_to_hex;
use zk_focil::encoders::serialize_point;
use zk_focil::key_image::KeyImage;
use zk_focil::lsag_verifier::{verify_lsag, verify_stringified_lsag, Lsag, StringifiedLsag};
use zk_focil::points::Point;
use zk_focil::scalars::{scalar_from_hex, Scalar};
use zk_focil::signer::{generate_keypair, sign_lsag, SigningDetails};

fn keypair() -> (Scalar, Point) {
    generate_keypair().expect("randomness source failed")
}

fn sample_signature() -> (Scalar, Vec<Point>, Lsag) {
    let (x1, p1) = keypair();
    let (_, p2) = keypair();
    let (_, p3) = keypair();
    let ring = vec![p1.clone(), p2, p3];
    let details = SigningDetails { private_key: x1.clone(), public_key: p1, index: 0 };
    let sig = sign_lsag(
        String::from("test message"),
        &ring,
        &details,
        Some(String::from("linkability test")),
    )
    .expect("signing failed");
    (x1, ring, sig)
}

fn other_scalar_than(s: &Scalar) -> Scalar {
    let a = scalar_from_hex("0000000000000000000000000000000000000000000000000000000000000001")
        .unwrap();
    if &a != s {
        a
    } else {
        scalar_from_hex("0000000000000000000000000000000000000000000000000000000000000002")
            .unwrap()
    }
}

#[test]
fn sign_and_verify_three_member_ring() {
    let (_, _, sig) = sample_signature();
    assert_eq!(sig.ring.len(), 3);
    assert_eq!(sig.responses.len(), 3);
    assert!(verify_lsag(sig));
}

#[test]
fn mutated_message_invalidates() {
    let (_, _, sig) = sample_signature();
    let mut tampered = sig.clone();
    tampered.message = String::from("test messagf");
    assert!(verify_lsag(sig));
    assert!(!verify_lsag(tampered));
}

#[test]
fn same_key_and_tag_share_key_image_across_rings() {
    let (x1, ring1, sig1) = sample_signature();
    let (_, p4) = keypair();
    let (_, p5) = keypair();
    let ring2 = vec![ring1[0].clone(), p4, p5];
    let details = SigningDetails {
        private_key: x1.clone(),
        public_key: ring1[0].clone(),
        index: 0,
    };
    let sig2 = sign_lsag(
        String::from("a different message"),
        &ring2,
        &details,
        Some(String::from("linkability test")),
    )
    .expect("signing failed");
    assert!(verify_lsag(sig2.clone()));
    assert_eq!(sig1.key_image, sig2.key_image);
}

#[test]
fn different_keys_give_different_key_images() {
    let (x1, p1) = keypair();
    let (x2, p2) = keypair();
    let (_, p3) = keypair();
    let ring = vec![p1.clone(), p2.clone(), p3];
    let message = String::from("shared message");
    let tag = Some(String::from("shared tag"));
    let d1 = SigningDetails { private_key: x1, public_key: p1, index: 0 };
    let d2 = SigningDetails { private_key: x2, public_key: p2, index: 1 };
    let sig1 = sign_lsag(message.clone(), &ring, &d1, tag.clone()).expect("signing failed");
    let sig2 = sign_lsag(message, &ring, &d2, tag).expect("signing failed");
    assert!(verify_lsag(sig1.clone()));
    assert!(verify_lsag(sig2.clone()));
    assert_ne!(sig1.key_image, sig2.key_image);
}

#[test]
fn swapped_ring_members_invalidate() {
    let (_, _, sig) = sample_signature();
    let mut tampered = sig;
    tampered.ring.swap(0, 1);
    assert!(!verify_lsag(tampered));
}

#[test]
fn mutated_c0_invalidates() {
    let (_, _, sig) = sample_signature();
    let mut tampered = sig;
    tampered.c0 = other_scalar_than(&tampered.c0);
    assert!(!verify_lsag(tampered));
}

#[test]
fn mutated_response_invalidates() {
    let (_, _, sig) = sample_signature();
    for i in 0..3 {
        let mut tampered = sig.clone();
        tampered.responses[i] = other_scalar_than(&tampered.responses[i]);
        assert!(!verify_lsag(tampered));
    }
}

#[test]
fn verification_is_deterministic() {
    let (_, _, sig) = sample_signature();
    let first = verify_lsag(sig.clone());
    let second = verify_lsag(sig.clone());
    let third = verify_lsag(sig);
    assert_eq!(first, second);
    assert_eq!(second, third);
    assert!(first);
}

#[test]
fn distinct_tags_give_distinct_key_images() {
    let (x, _) = keypair();
    let ki1 = KeyImage::from_private_key(&x, Some(String::from("epoch-1"))).unwrap();
    let ki2 = KeyImage::from_private_key(&x, Some(String::from("epoch-2"))).unwrap();
    let ki3 = KeyImage::from_private_key(&x, None).unwrap();
    assert_ne!(ki1, ki2);
    assert_ne!(ki1, ki3);
    assert_ne!(ki2, ki3);
}

#[test]
fn signature_key_image_matches_direct_derivation() {
    let (x1, _, sig) = sample_signature();
    let ki = KeyImage::from_private_key(&x1, Some(String::from("linkability test"))).unwrap();
    assert_eq!(ki.point(), sig.key_image);
}

#[test]
fn short_ring_is_bad_input() {
    let (x1, p1) = keypair();
    let ring = vec![p1.clone()];
    let details = SigningDetails { private_key: x1, public_key: p1, index: 0 };
    let r = sign_lsag(String::from("m"), &ring, &details, None);
    assert!(matches!(r, Err(LsagError::BadInput)));
}

#[test]
fn duplicate_ring_member_is_bad_input() {
    let (x1, p1) = keypair();
    let (_, p2) = keypair();
    let ring = vec![p1.clone(), p2.clone(), p2];
    let details = SigningDetails { private_key: x1, public_key: p1, index: 0 };
    let r = sign_lsag(String::from("m"), &ring, &details, None);
    assert!(matches!(r, Err(LsagError::BadInput)));
}

#[test]
fn zero_private_key_is_bad_input() {
    let (_, p1) = keypair();
    let (_, p2) = keypair();
    let ring = vec![p1.clone(), p2];
    let details = SigningDetails { private_key: Scalar::zero(), public_key: p1, index: 0 };
    let r = sign_lsag(String::from("m"), &ring, &details, None);
    assert!(matches!(r, Err(LsagError::BadInput)));
}

#[test]
fn out_of_bounds_index_is_invalid_signer() {
    let (x1, p1) = keypair();
    let (_, p2) = keypair();
    let ring = vec![p1.clone(), p2];
    let details = SigningDetails { private_key: x1, public_key: p1, index: 5 };
    let r = sign_lsag(String::from("m"), &ring, &details, None);
    assert!(matches!(r, Err(LsagError::InvalidSigner)));
}

#[test]
fn wrong_position_is_invalid_signer() {
    let (x1, p1) = keypair();
    let (_, p2) = keypair();
    let ring = vec![p1.clone(), p2];
    let details = SigningDetails { private_key: x1, public_key: p1, index: 1 };
    let r = sign_lsag(String::from("m"), &ring, &details, None);
    assert!(matches!(r, Err(LsagError::InvalidSigner)));
}

#[test]
fn zero_key_image_derivation_fails() {
    let r = KeyImage::from_private_key(&Scalar::zero(), None);
    assert!(matches!(r, Err(LsagError::BadInput)));
}

#[test]
fn stringified_signature_verifies_and_binds() {
    let (_, _, sig) = sample_signature();
    let json = StringifiedLsag {
        message: String::from("test message"),
        ring: sig.ring.iter().map(serialize_point).collect(),
        c: bytes_to_hex(&sig.c0.to_bytes()),
        responses: sig.responses.iter().map(|s| bytes_to_hex(&s.to_bytes())).collect(),
        keyImage: serialize_point(&sig.key_image),
        linkabilityFlag: String::from("linkability test"),
    };
    assert!(verify_stringified_lsag(&json));

    let mut bad_scalar = json.clone();
    bad_scalar.c = String::from("zz");
    assert!(!verify_stringified_lsag(&bad_scalar));

    let mut bad_message = json.clone();
    bad_message.message = String::from("test messagf");
    assert!(!verify_stringified_lsag(&bad_message));

    let mut bad_tag = json;
    bad_tag.linkabilityFlag = String::from("another tag");
    assert!(!verify_stringified_lsag(&bad_tag));
}
