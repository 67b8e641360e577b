//! Linkable Spontaneous Anonymous Group (LSAG) signatures over secp256k1,
//! together with the includer-lottery predicate that turns a signer's key
//! image into a Sybil-resistant selection bit.
//!
//! The curve and hash primitives come from outside crates behind trusted
//! wrappers; every piece of scheme logic above them carries a contract.

pub mod encoders;
pub mod errors;
pub mod hash_to_curve;
pub mod hashes;
pub mod hexstr;
pub mod key_image;
pub mod laws;
pub mod lottery;
pub mod lsag_verifier;
pub mod points;
pub mod radix;
pub mod scalars;
pub mod signer;
