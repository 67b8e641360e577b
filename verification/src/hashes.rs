//! The two digests the scheme uses: Keccak-256 over text for the ring
//! challenge chain, SHA-256 over bytes for the includer lottery. Both come
//! from outside crates behind trusted wrappers; each digest is named as a
//! pure function of the input.

use vstd::prelude::*;
use vstd::string::StrSliceExecFns;
use vstd::string::StringExecFns;

use sha3::Digest;

use crate::hexstr::bytes_to_hex;
use crate::radix::hex_of_bytes;

verus! {

/// The Keccak-256 digest of the UTF-8 bytes of a character string.
pub uninterp spec fn keccak256_of(s: Seq<char>) -> Seq<u8>;

/// The SHA-256 digest of a byte string.
pub uninterp spec fn sha256_of(b: Seq<u8>) -> Seq<u8>;

/// Relies on `sha3::Keccak256` over `str::as_bytes`: a 32-byte digest that
/// depends on the characters of the input alone.
#[verifier::external_body]
pub(crate) fn keccak256_digest(s: &str) -> (r: Vec<u8>)
    ensures
        r@ == keccak256_of(s@),
        r@.len() == 32,
{
    let mut hasher = sha3::Keccak256::new();
    hasher.update(s.as_bytes());
    hasher.finalize().to_vec()
}

/// Relies on `sha2::Sha256`: a 32-byte digest of the input bytes.
#[verifier::external_body]
pub(crate) fn sha256_digest(b: &Vec<u8>) -> (r: [u8; 32])
    ensures
        r@ == sha256_of(b@),
{
    let mut hasher = sha2::Sha256::new();
    hasher.update(b.as_slice());
    hasher.finalize().into()
}

/// Concatenation of a sequence of character strings, in order.
pub open spec fn concat_strs(ss: Seq<Seq<char>>) -> Seq<char>
    decreases ss.len(),
{
    if ss.len() == 0 {
        Seq::empty()
    } else {
        concat_strs(ss.drop_last()) + ss.last()
    }
}

/// Concatenates the input strings and returns the Keccak-256 digest of the
/// result as a lowercase hexadecimal string.
pub fn keccak_256(input: &Vec<String>) -> (r: String)
    ensures
        r@ == hex_of_bytes(keccak256_of(concat_strs(input.deep_view()))),
        keccak256_of(concat_strs(input.deep_view())).len() == 32,
{
    let mut s = String::new();
    let mut i: usize = 0;
    proof {
        assert(input.deep_view().take(0) =~= Seq::<Seq<char>>::empty());
    }
    while i < input.len()
        invariant
            i <= input@.len(),
            input.deep_view().len() == input@.len(),
            s@ == concat_strs(input.deep_view().take(i as int)),
        decreases input@.len() - i,
    {
        let piece: &String = &input[i];
        s.append(piece.as_str());
        proof {
            let dv = input.deep_view();
            assert(dv[i as int] == input@[i as int]@);
            assert(dv.take(i + 1).drop_last() =~= dv.take(i as int));
            assert(dv.take(i + 1).last() == dv[i as int]);
        }
        i += 1;
    }
    proof {
        assert(input.deep_view().take(input@.len() as int) =~= input.deep_view());
    }
    let digest = keccak256_digest(s.as_str());
    bytes_to_hex(&digest)
}

} // verus!
