//! The includer lottery: determinism, the degenerate modulo, the selection
//! rate over many key images, and the beacon-state helpers.

use zk_focil::key_image::{is_includer_from_key_image, KeyImage};
use zk_focil::lottery::{
    bytes_to_uint64, compute_epoch_at_slot, compute_signing_root, get_domain, is_includer,
    is_includer_impl, BeaconState, Domain, Validator, TARGET_N_INCLUDERS,
};
use zk_focil::hash_to_curve::hash_to_secp256k1;
use zk_focil::points::{ec_add, generator};
use zk_focil::scalars::Scalar;
use zk_focil::signer::generate_keypair;

fn sample_key_image() -> KeyImage {
    let (x, _) = generate_keypair().expect("randomness source failed");
    KeyImage::from_private_key(&x, None).expect("key image derivation failed")
}

fn sample_state(n: usize) -> BeaconState {
    let mut validators = Vec::new();
    for index in 0..n {
        validators.push(Validator { public_key: generator(), index });
    }
    BeaconState { validators, current_epoch: 0 }
}

#[test]
fn epoch_is_slot_div_32() {
    assert_eq!(compute_epoch_at_slot(0), 0);
    assert_eq!(compute_epoch_at_slot(31), 0);
    assert_eq!(compute_epoch_at_slot(32), 1);
    assert_eq!(compute_epoch_at_slot(100), 3);
    assert_eq!(compute_epoch_at_slot(u64::MAX), u64::MAX / 32);
}

#[test]
fn bytes_to_uint64_reads_little_endian() {
    assert_eq!(bytes_to_uint64(&vec![]), 0);
    assert_eq!(bytes_to_uint64(&vec![1]), 1);
    assert_eq!(bytes_to_uint64(&vec![0x78, 0x56, 0x34, 0x12]), 0x12345678);
    assert_eq!(
        bytes_to_uint64(&vec![0x78, 0x56, 0x34, 0x12, 0, 0, 0, 0, 0xff]),
        0x12345678
    );
    assert_eq!(bytes_to_uint64(&vec![0xff; 8]), u64::MAX);
    assert_eq!(bytes_to_uint64(&vec![0, 0, 0, 0, 0, 0, 0, 1]), 1 << 56);
}

#[test]
fn includer_bit_is_deterministic() {
    let ki = sample_key_image();
    let first = is_includer_from_key_image(&ki, 6400, 64);
    let second = is_includer_from_key_image(&ki, 6400, 64);
    assert_eq!(first, second);
}

#[test]
fn small_validator_set_selects_everyone() {
    let ki = sample_key_image();
    assert!(is_includer_from_key_image(&ki, 1, 64));
    assert!(is_includer_from_key_image(&ki, 64, 64));
}

#[test]
fn hash_to_u64_matches_bytes_to_uint64() {
    let ki = sample_key_image();
    let digest = ki.hash();
    assert_eq!(ki.hash_to_u64(), bytes_to_uint64(&digest.to_vec()));
}

#[test]
fn impl_matches_key_image_predicate() {
    let ki = sample_key_image();
    let state = sample_state(500);
    assert_eq!(
        is_includer_impl(&state, &ki),
        is_includer_from_key_image(&ki, 500, TARGET_N_INCLUDERS)
    );
}

#[test]
fn is_includer_rejects_zero_key() {
    let state = sample_state(3);
    assert!(is_includer(&state, 7, &Scalar::zero()).is_err());
}

#[test]
fn is_includer_runs_for_valid_key() {
    let (x, _) = generate_keypair().expect("randomness source failed");
    let state = sample_state(3);
    let first = is_includer(&state, 7, &x).expect("selection failed");
    let second = is_includer(&state, 7, &x).expect("selection failed");
    assert_eq!(first, second);
    // three validators and a target of 64 make the modulo one: always selected
    assert!(first);
}

#[test]
fn domain_and_signing_root_are_deterministic() {
    let state = sample_state(2);
    let d1 = get_domain(&state, Domain::DOMAIN_IL, 5);
    let d2 = get_domain(&state, Domain::DOMAIN_IL, 5);
    assert_eq!(d1, d2);
    let d3 = get_domain(&state, Domain::DOMAIN_IL, 6);
    assert_ne!(d1, d3);
    let r1 = compute_signing_root(&vec![1, 2, 3], d1);
    let r2 = compute_signing_root(&vec![1, 2, 3], d2);
    assert_eq!(r1, r2);
    let r3 = compute_signing_root(&vec![1, 2, 4], d1);
    assert_ne!(r1, r3);
}

#[test]
fn selection_rate_near_one_percent_over_many_key_images() {
    // 6400 validators with a target of 64 give a modulo of 100, so about
    // one key image in a hundred is selected.
    let mut point = hash_to_secp256k1("includer lottery seed").expect("hash-to-curve failed");
    let g = generator();
    let mut selected: usize = 0;
    for _ in 0..6400 {
        let ki = KeyImage::from_point(point.clone());
        if is_includer_from_key_image(&ki, 6400, 64) {
            selected += 1;
        }
        point = ec_add(&point, &g);
    }
    // within [0.8, 1.2] of the expected 64 of 6400
    assert!(selected >= 52, "selected only {} of 6400", selected);
    assert!(selected <= 76, "selected {} of 6400", selected);
}
