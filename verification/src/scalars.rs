//! Canonical scalars of the secp256k1 subgroup: 32 big-endian bytes whose
//! value lies below the group order, with the modular arithmetic the ring
//! closure needs supplied by the `k256` field implementation.

use vstd::prelude::*;

use k256::elliptic_curve::PrimeField;

use crate::errors::LsagError;
use crate::hexstr::{bytes_eq, hex_str_to_bytes};
use crate::radix::{
    all_hex_digits, be_val, bytes_of_hex, hex_val, lemma_be_val_of_bytes_of_hex, lemma_be_val_zero,
};

verus! {

/// The 32 big-endian bytes of the secp256k1 group order `n`.
pub open spec fn order_seq() -> Seq<u8> {
    seq![
        0xffu8, 0xff, 0xff, 0xff, 0xff, 0xff, 0xff, 0xff, 0xff, 0xff, 0xff, 0xff, 0xff, 0xff,
        0xff, 0xfe, 0xba, 0xae, 0xdc, 0xe6, 0xaf, 0x48, 0xa0, 0x3b, 0xbf, 0xd2, 0x5e, 0x8c, 0xd0,
        0x36, 0x41, 0x41,
    ]
}

/// The secp256k1 group order `n` as an integer.
pub open spec fn secp_order() -> nat {
    be_val(order_seq())
}

pub proof fn lemma_secp_order_pos()
    ensures
        secp_order() > 0,
{
    lemma_be_val_zero(order_seq());
    assert(order_seq()[0] == 0xffu8);
}

/// A scalar modulo the secp256k1 group order, held as its canonical
/// 32-byte big-endian representation.
#[derive(Debug, PartialEq, Eq)]
pub struct Scalar {
    bytes: Vec<u8>,
}

impl Clone for Scalar {
    fn clone(&self) -> (r: Self)
        ensures
            r@ == self@,
    {
        proof {
            use_type_invariant(self);
        }
        Scalar { bytes: self.bytes.clone() }
    }
}

impl View for Scalar {
    type V = Seq<u8>;

    closed spec fn view(&self) -> Seq<u8> {
        self.bytes@
    }
}

impl DeepView for Scalar {
    type V = Seq<u8>;

    open spec fn deep_view(&self) -> Seq<u8> {
        self.view()
    }
}

impl Scalar {
    #[verifier::type_invariant]
    spec fn inv(self) -> bool {
        self.bytes@.len() == 32 && be_val(self.bytes@) < secp_order()
    }

    /// The scalar zero.
    pub fn zero() -> (r: Scalar)
        ensures
            r@.len() == 32,
            be_val(r@) == 0,
    {
        let mut bytes: Vec<u8> = Vec::new();
        let mut i: usize = 0;
        while i < 32
            invariant
                i <= 32,
                bytes@.len() == i,
                forall|k: int| 0 <= k < i ==> bytes@[k] == 0,
            decreases 32 - i,
        {
            bytes.push(0);
            i += 1;
        }
        proof {
            lemma_be_val_zero(bytes@);
            lemma_secp_order_pos();
        }
        Scalar { bytes }
    }

    /// The canonical 32-byte big-endian representation.
    pub fn to_bytes(&self) -> (r: Vec<u8>)
        ensures
            r@ == self@,
    {
        let mut r: Vec<u8> = Vec::new();
        let mut i: usize = 0;
        proof {
            use_type_invariant(self);
        }
        while i < self.bytes.len()
            invariant
                i <= self.bytes@.len(),
                r@ =~= self.bytes@.take(i as int),
            decreases self.bytes@.len() - i,
        {
            r.push(self.bytes[i]);
            i += 1;
        }
        proof {
            assert(self.bytes@.take(self.bytes@.len() as int) =~= self.bytes@);
        }
        r
    }

    pub fn eq_scalar(&self, other: &Scalar) -> (r: bool)
        ensures
            r == (self@ == other@),
    {
        bytes_eq(&self.bytes, &other.bytes)
    }

    pub fn is_zero(&self) -> (r: bool)
        ensures
            r == (be_val(self@) == 0),
    {
        let mut i: usize = 0;
        while i < self.bytes.len()
            invariant
                i <= self.bytes@.len(),
                forall|k: int| 0 <= k < i ==> self.bytes@[k] == 0,
            decreases self.bytes@.len() - i,
        {
            if self.bytes[i] != 0 {
                proof {
                    lemma_be_val_zero(self.bytes@);
                }
                return false;
            }
            i += 1;
        }
        proof {
            lemma_be_val_zero(self.bytes@);
        }
        true
    }

}

/// Relies on `k256::Scalar::from_repr`: it parses 32 big-endian bytes and is
/// `Some` exactly when their value lies below the secp256k1 group order.
#[verifier::external_body]
pub(crate) fn scalar_from_be_bytes(b: &Vec<u8>) -> (r: Option<Scalar>)
    requires
        b@.len() == 32,
    ensures
        r is Some <==> be_val(b@) < secp_order(),
        r matches Some(s) ==> s@ == b@,
{
    let repr = k256::FieldBytes::clone_from_slice(b.as_slice());
    let parsed: Option<k256::Scalar> = k256::Scalar::from_repr(repr).into();
    match parsed {
        Some(_) => Some(Scalar { bytes: b.clone() }),
        None => None,
    }
}

/// Relies on `k256::Scalar::{from_repr, mul, to_repr}`: scalars are the
/// integers modulo the secp256k1 group order `n`, multiplication is modular,
/// and `to_repr` renders the canonical 32 big-endian bytes.
#[verifier::external_body]
pub(crate) fn scalar_mul(a: &Scalar, b: &Scalar) -> (r: Scalar)
    ensures
        r@.len() == 32,
        be_val(r@) == (be_val(a@) * be_val(b@)) % secp_order(),
{
    let sa: Option<k256::Scalar> = k256::Scalar::from_repr(
        k256::FieldBytes::clone_from_slice(a.bytes.as_slice()),
    ).into();
    let sb: Option<k256::Scalar> = k256::Scalar::from_repr(
        k256::FieldBytes::clone_from_slice(b.bytes.as_slice()),
    ).into();
    let p = sa.unwrap() * sb.unwrap();
    Scalar { bytes: p.to_repr().to_vec() }
}

/// Relies on `k256::Scalar::{from_repr, sub, to_repr}`: subtraction is
/// modular over the secp256k1 group order `n`; for canonical operands the
/// result is `(a + n - b) mod n`.
#[verifier::external_body]
pub(crate) fn scalar_sub(a: &Scalar, b: &Scalar) -> (r: Scalar)
    ensures
        r@.len() == 32,
        be_val(r@) as int == (be_val(a@) + secp_order() - be_val(b@)) % (secp_order() as int),
{
    let sa: Option<k256::Scalar> = k256::Scalar::from_repr(
        k256::FieldBytes::clone_from_slice(a.bytes.as_slice()),
    ).into();
    let sb: Option<k256::Scalar> = k256::Scalar::from_repr(
        k256::FieldBytes::clone_from_slice(b.bytes.as_slice()),
    ).into();
    let d = sa.unwrap() - sb.unwrap();
    Scalar { bytes: d.to_repr().to_vec() }
}

/// Parses 64 hexadecimal characters as a canonical scalar: 32 big-endian
/// bytes whose value lies below the group order; rejects anything else.
pub fn scalar_from_hex(h: &str) -> (r: Result<Scalar, LsagError>)
    ensures
        r is Ok <==> (h@.len() == 64 && all_hex_digits(h@) && hex_val(h@) < secp_order()),
        r matches Ok(s) ==> s@ == bytes_of_hex(h@) && be_val(s@) == hex_val(h@),
        r is Err ==> r == Err::<Scalar, LsagError>(LsagError::BadInput),
{
    let bytes = match hex_str_to_bytes(h) {
        Some(b) => b,
        None => {
            return Err(LsagError::BadInput);
        },
    };
    if bytes.len() != 32 {
        return Err(LsagError::BadInput);
    }
    proof {
        lemma_be_val_of_bytes_of_hex(h@);
    }
    match scalar_from_be_bytes(&bytes) {
        Some(s) => Ok(s),
        None => Err(LsagError::BadInput),
    }
}

} // verus!
