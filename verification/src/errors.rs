//! Failure kinds surfaced by the fallible operations of the scheme.

use vstd::prelude::*;

verus! {

/// What went wrong while signing or while deriving a key image.
///
/// Verification never raises: an invalid signature only yields `false`.
#[derive(Clone, Copy, Debug, PartialEq, Eq, Structural)]
pub enum LsagError {
    /// An input violated its documented shape: a ring that is too short or
    /// holds a repeated member, a zero private key, a string that is not
    /// hexadecimal, or a digest that no canonical scalar or curve point fits.
    BadInput,
    /// The signer index lies outside the ring, or the ring member there is
    /// not the public key of the supplied private key.
    InvalidSigner,
    /// The randomness source kept yielding draws that no canonical scalar
    /// fits, past the bounded number of retries.
    RngFailure,
}

} // verus!
