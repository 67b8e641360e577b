//! Affine points of secp256k1, held as their uncompressed SEC1 encoding
//! (`0x04 ‖ X ‖ Y`, 65 bytes) or the single-byte identity encoding. The
//! group operations come from `k256` behind trusted wrappers whose results
//! are named as pure functions of the operand encodings.

use vstd::prelude::*;

use k256::elliptic_curve::sec1::{FromEncodedPoint, ToEncodedPoint};
use k256::elliptic_curve::PrimeField;

use crate::hexstr::bytes_eq;
use crate::scalars::Scalar;

verus! {

/// Whether 65 bytes starting with `0x04` name a point of the curve: both
/// coordinates below the field modulus and satisfying the curve equation.
pub uninterp spec fn valid_point_enc(enc: Seq<u8>) -> bool;

/// The uncompressed encoding of the scalar multiple `s · P`, as a function
/// of the encodings of the point `P` and the scalar `s`.
pub uninterp spec fn ec_mul_enc(p: Seq<u8>, s: Seq<u8>) -> Seq<u8>;

/// The uncompressed encoding of the sum `P + Q`, as a function of the
/// encodings of the two points.
pub uninterp spec fn ec_add_enc(p: Seq<u8>, q: Seq<u8>) -> Seq<u8>;

/// The uncompressed encoding of the curve point with the given x coordinate
/// and even y, or `None` when no curve point has that x coordinate.
pub uninterp spec fn lift_x_enc(x: Seq<u8>) -> Option<Seq<u8>>;

/// The uncompressed SEC1 encoding of the secp256k1 base point `G`.
pub open spec fn generator_enc() -> Seq<u8> {
    seq![
        0x04u8, 0x79, 0xbe, 0x66, 0x7e, 0xf9, 0xdc, 0xbb, 0xac, 0x55, 0xa0, 0x62, 0x95, 0xce,
        0x87, 0x0b, 0x07, 0x02, 0x9b, 0xfc, 0xdb, 0x2d, 0xce, 0x28, 0xd9, 0x59, 0xf2, 0x81, 0x5b,
        0x16, 0xf8, 0x17, 0x98, 0x48, 0x3a, 0xda, 0x77, 0x26, 0xa3, 0xc4, 0x65, 0x5d, 0xa4, 0xfb,
        0xfc, 0x0e, 0x11, 0x08, 0xa8, 0xfd, 0x17, 0xb4, 0x48, 0xa6, 0x85, 0x54, 0x19, 0x9c, 0x47,
        0xd0, 0x8f, 0xfb, 0x10, 0xd4, 0xb8,
    ]
}

/// Whether an encoding is the single-byte identity encoding.
pub open spec fn is_identity_enc(enc: Seq<u8>) -> bool {
    enc.len() == 1
}

/// An affine secp256k1 point, held as its SEC1 encoding: 65 uncompressed
/// bytes for an ordinary point, one zero byte for the identity.
#[derive(Debug, PartialEq, Eq)]
pub struct Point {
    enc: Vec<u8>,
}

impl View for Point {
    type V = Seq<u8>;

    closed spec fn view(&self) -> Seq<u8> {
        self.enc@
    }
}

impl DeepView for Point {
    type V = Seq<u8>;

    open spec fn deep_view(&self) -> Seq<u8> {
        self.view()
    }
}

impl Clone for Point {
    fn clone(&self) -> (r: Self)
        ensures
            r@ == self@,
    {
        proof {
            use_type_invariant(self);
        }
        Point { enc: self.enc.clone() }
    }
}

impl Point {
    #[verifier::type_invariant]
    spec fn inv(self) -> bool {
        (self.enc@.len() == 1 && self.enc@[0] == 0) || (self.enc@.len() == 65 && self.enc@[0] == 4
            && valid_point_enc(self.enc@))
    }

    /// The SEC1 encoding bytes of the point.
    pub fn to_encoded_bytes(&self) -> (r: Vec<u8>)
        ensures
            r@ == self@,
    {
        proof {
            use_type_invariant(self);
        }
        self.enc.clone()
    }

    pub fn is_identity(&self) -> (r: bool)
        ensures
            r == is_identity_enc(self@),
    {
        proof {
            use_type_invariant(self);
        }
        self.enc.len() == 1
    }

    pub fn eq_point(&self, other: &Point) -> (r: bool)
        ensures
            r == (self@ == other@),
    {
        bytes_eq(&self.enc, &other.enc)
    }

}

/// Relies on `k256::AffinePoint::GENERATOR` and its uncompressed SEC1
/// encoding: the standardized secp256k1 base point.
#[verifier::external_body]
pub fn generator() -> (r: Point)
    ensures
        r@ == generator_enc(),
{
    let enc = k256::AffinePoint::GENERATOR.to_encoded_point(false);
    Point { enc: enc.as_bytes().to_vec() }
}

/// Relies on `k256` scalar multiplication (`AffinePoint * Scalar`, then
/// `to_affine`) with SEC1 encoding on both sides: the result bytes are a
/// pure function of the operand bytes, here named `ec_mul_enc`.
#[verifier::external_body]
pub fn ec_mul(p: &Point, s: &Scalar) -> (r: Point)
    ensures
        r@ == ec_mul_enc(p@, s@),
{
    let ep = k256::EncodedPoint::from_bytes(p.to_encoded_bytes()).unwrap();
    let ap: Option<k256::AffinePoint> = k256::AffinePoint::from_encoded_point(&ep).into();
    let sc: Option<k256::Scalar> = k256::Scalar::from_repr(
        k256::FieldBytes::clone_from_slice(s.to_bytes().as_slice()),
    ).into();
    let prod = (ap.unwrap() * sc.unwrap()).to_affine();
    Point { enc: prod.to_encoded_point(false).as_bytes().to_vec() }
}

/// Relies on `k256` point addition (`ProjectivePoint + AffinePoint`, then
/// `to_affine`) with SEC1 encoding on both sides: the result bytes are a
/// pure function of the operand bytes, here named `ec_add_enc`.
#[verifier::external_body]
pub fn ec_add(p: &Point, q: &Point) -> (r: Point)
    ensures
        r@ == ec_add_enc(p@, q@),
{
    let ep = k256::EncodedPoint::from_bytes(p.to_encoded_bytes()).unwrap();
    let ap: Option<k256::AffinePoint> = k256::AffinePoint::from_encoded_point(&ep).into();
    let eq = k256::EncodedPoint::from_bytes(q.to_encoded_bytes()).unwrap();
    let aq: Option<k256::AffinePoint> = k256::AffinePoint::from_encoded_point(&eq).into();
    let sum = (k256::ProjectivePoint::from(ap.unwrap()) + aq.unwrap()).to_affine();
    Point { enc: sum.to_encoded_point(false).as_bytes().to_vec() }
}

/// Relies on `k256::AffinePoint::from_encoded_point` on 65 uncompressed
/// bytes: `Some` exactly when the bytes name coordinates below the field
/// modulus that satisfy the curve equation; the parsed point re-encodes to
/// the input bytes.
#[verifier::external_body]
pub(crate) fn parse_uncompressed(b: &Vec<u8>) -> (r: Option<Point>)
    requires
        b@.len() == 65,
        b@[0] == 4,
    ensures
        r is Some <==> valid_point_enc(b@),
        r matches Some(p) ==> p@ == b@,
{
    let ep = match k256::EncodedPoint::from_bytes(b.as_slice()) {
        Ok(e) => e,
        Err(_) => {
            return None;
        },
    };
    let ap: Option<k256::AffinePoint> = k256::AffinePoint::from_encoded_point(&ep).into();
    match ap {
        Some(_) => Some(Point { enc: b.clone() }),
        None => None,
    }
}

/// Relies on `k256::AffinePoint::from_encoded_point` on a compressed
/// even-y encoding (`0x02 ‖ x`): decompression succeeds exactly when some
/// curve point has the given x coordinate; the result is that point,
/// re-encoded uncompressed, and never the identity.
#[verifier::external_body]
pub(crate) fn lift_x_even(x: &Vec<u8>) -> (r: Option<Point>)
    requires
        x@.len() == 32,
    ensures
        r is Some <==> lift_x_enc(x@) is Some,
        r matches Some(p) ==> (lift_x_enc(x@) matches Some(e) && p@ == e && p@.len() == 65
            && p@[0] == 4),
{
    let mut buf: Vec<u8> = Vec::with_capacity(33);
    buf.push(2);
    buf.extend_from_slice(x.as_slice());
    let ep = match k256::EncodedPoint::from_bytes(buf.as_slice()) {
        Ok(e) => e,
        Err(_) => {
            return None;
        },
    };
    let ap: Option<k256::AffinePoint> = k256::AffinePoint::from_encoded_point(&ep).into();
    match ap {
        Some(a) => Some(Point { enc: a.to_encoded_point(false).as_bytes().to_vec() }),
        None => None,
    }
}

} // verus!
