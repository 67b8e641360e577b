//! The textual encoders: hexadecimal and decimal rendering, point and ring
//! serialization, scalar parsing, and the Keccak digest strings.

use zk_focil::encoders::{deserialize_point, deserialize_ring, serialize_point, serialize_ring};
use zk_focil::hash_to_curve::hash_to_secp256k1;
use zk_focil::hashes::keccak_256;
use zk_focil::hexstr::{bytes_to_hex, hex_to_decimal};
use zk_focil::points::generator;
use zk_focil::scalars::{scalar_from_hex, Scalar};
use zk_focil::signer::generate_keypair;

const GENERATOR_HEX: &str = "0479be667ef9dcbbac55a06295ce870b07029bfcdb2dce28d959f2815b16f81798483ada7726a3c4655da4fbfc0e1108a8fd17b448a68554199c47d08ffb10d4b8";

const ORDER_HEX: &str = "fffffffffffffffffffffffffffffffebaaedce6af48a03bbfd25e8cd0364141";

const ORDER_MINUS_ONE_HEX: &str =
    "fffffffffffffffffffffffffffffffebaaedce6af48a03bbfd25e8cd0364140";

#[test]
fn generator_serializes_to_the_standard_bytes() {
    assert_eq!(serialize_point(&generator()), GENERATOR_HEX);
}

#[test]
fn point_round_trips_through_hex() {
    let p = deserialize_point(String::from(GENERATOR_HEX)).expect("generator must parse");
    assert_eq!(serialize_point(&p), GENERATOR_HEX);
    let upper = GENERATOR_HEX.to_uppercase();
    let q = deserialize_point(upper).expect("uppercase hex must parse");
    assert_eq!(serialize_point(&q), GENERATOR_HEX);
}

#[test]
fn invalid_points_are_rejected() {
    // not hexadecimal
    assert!(deserialize_point(String::from("zz")).is_err());
    // wrong length
    assert!(deserialize_point(String::from("0479be66")).is_err());
    // right shape, but x = y = 0 is not on the curve
    let zeros = format!("04{}", "00".repeat(64));
    assert!(deserialize_point(zeros).is_err());
}

#[test]
fn ring_serialization_concatenates_members() {
    let (_, p1) = generate_keypair().expect("randomness source failed");
    let (_, p2) = generate_keypair().expect("randomness source failed");
    let ring = vec![p1.clone(), p2.clone()];
    let joined = serialize_ring(&ring);
    assert_eq!(joined, format!("{}{}", serialize_point(&p1), serialize_point(&p2)));
    let strings = vec![serialize_point(&p1), serialize_point(&p2)];
    let parsed = deserialize_ring(&strings).expect("ring must parse");
    assert_eq!(parsed, ring);
    let bad = vec![serialize_point(&p1), String::from("04")];
    assert!(deserialize_ring(&bad).is_err());
}

#[test]
fn scalar_parsing_enforces_canonical_range() {
    let one = scalar_from_hex("0000000000000000000000000000000000000000000000000000000000000001")
        .expect("one is canonical");
    assert_eq!(
        bytes_to_hex(&one.to_bytes()),
        "0000000000000000000000000000000000000000000000000000000000000001"
    );
    assert!(scalar_from_hex(ORDER_MINUS_ONE_HEX).is_ok());
    assert!(scalar_from_hex(ORDER_HEX).is_err());
    assert!(scalar_from_hex("ff").is_err());
    assert!(scalar_from_hex(&"gg".repeat(32)).is_err());
    assert_eq!(
        bytes_to_hex(&Scalar::zero().to_bytes()),
        "00".repeat(32)
    );
}

#[test]
fn hex_to_decimal_exact_values() {
    assert_eq!(hex_to_decimal("ff").unwrap(), "255");
    assert_eq!(hex_to_decimal("FF").unwrap(), "255");
    assert_eq!(hex_to_decimal("00").unwrap(), "0");
    assert_eq!(hex_to_decimal("").unwrap(), "0");
    assert_eq!(hex_to_decimal("0100").unwrap(), "256");
    assert_eq!(hex_to_decimal("deadbeef").unwrap(), "3735928559");
    assert_eq!(
        hex_to_decimal("0000000000000000000000000000000000000000000000000000000000000010")
            .unwrap(),
        "16"
    );
    assert!(hex_to_decimal("xyz").is_err());
}

#[test]
fn keccak_digest_exact_values() {
    assert_eq!(
        keccak_256(&vec![String::new()]),
        "c5d2460186f7233c927e7db2dcc703c0e500b653ca82273b7bfad8045d85a470"
    );
    assert_eq!(
        keccak_256(&vec![String::from("abc")]),
        "4e03657aea45a94fc7d47ba826c8d667c0d1e6e33a64a036ec44f58fa12d6c45"
    );
    // hashing the concatenation equals hashing the pieces
    assert_eq!(
        keccak_256(&vec![String::from("a"), String::from("bc")]),
        keccak_256(&vec![String::from("abc")])
    );
}

#[test]
fn hash_to_curve_is_deterministic_and_lands_on_curve() {
    let p1 = hash_to_secp256k1("some input").expect("hash-to-curve failed");
    let p2 = hash_to_secp256k1("some input").expect("hash-to-curve failed");
    assert_eq!(p1, p2);
    let p3 = hash_to_secp256k1("some inpuu").expect("hash-to-curve failed");
    assert_ne!(p1, p3);
    // the encoding parses back as a curve point
    let reparsed = deserialize_point(serialize_point(&p1)).expect("must be on the curve");
    assert_eq!(reparsed, p1);
}
