//! Canonical textual encodings of points and rings: a point is rendered as
//! the lowercase hexadecimal of its uncompressed SEC1 bytes, a ring as the
//! concatenation of its members' renderings, in order.

use vstd::prelude::*;
use vstd::string::StringExecFns;

use crate::hexstr::{bytes_to_hex, hex_str_to_bytes};
use crate::points::{parse_uncompressed, valid_point_enc, Point};
use crate::radix::{all_hex_digits, bytes_of_hex, hex_of_bytes};

verus! {

/// The serialized form of a ring: each member's encoding in hexadecimal,
/// concatenated in ring order.
pub open spec fn ring_ser(ring: Seq<Seq<u8>>) -> Seq<char>
    decreases ring.len(),
{
    if ring.len() == 0 {
        Seq::empty()
    } else {
        ring_ser(ring.drop_last()) + hex_of_bytes(ring.last())
    }
}

/// Whether a character string is the hexadecimal of a valid uncompressed
/// SEC1 point encoding.
pub open spec fn point_hex_ok(s: Seq<char>) -> bool {
    s.len() == 130 && all_hex_digits(s) && bytes_of_hex(s)[0] == 4 && valid_point_enc(
        bytes_of_hex(s),
    )
}

/// Renders a point as the lowercase hexadecimal of its SEC1 encoding.
pub fn serialize_point(point: &Point) -> (r: String)
    ensures
        r@ == hex_of_bytes(point@),
{
    let bytes = point.to_encoded_bytes();
    bytes_to_hex(&bytes)
}

/// Parses the hexadecimal of an uncompressed SEC1 encoding back into a
/// point; rejects anything that does not name a curve point.
pub fn deserialize_point(point: String) -> (r: Result<Point, String>)
    ensures
        r is Ok <==> point_hex_ok(point@),
        r matches Ok(p) ==> p@ == bytes_of_hex(point@),
{
    let bytes = match hex_str_to_bytes(point.as_str()) {
        Some(b) => b,
        None => {
            return Err(String::from_str("point is not valid hexadecimal"));
        },
    };
    if bytes.len() != 65 {
        return Err(String::from_str("point does not have 65 encoded bytes"));
    }
    let tag = bytes[0];
    if tag != 4 {
        return Err(String::from_str("point encoding is not uncompressed"));
    }
    match parse_uncompressed(&bytes) {
        Some(p) => Ok(p),
        None => Err(String::from_str("bytes do not name a curve point")),
    }
}

/// Serializes a ring of points into a string: each point rendered in
/// hexadecimal, concatenated in order.
pub fn serialize_ring(ring: &Vec<Point>) -> (r: String)
    ensures
        r@ == ring_ser(ring.deep_view()),
{
    let mut serialized = String::new();
    let mut i: usize = 0;
    proof {
        assert(ring.deep_view().take(0) =~= Seq::<Seq<u8>>::empty());
    }
    while i < ring.len()
        invariant
            i <= ring@.len(),
            ring.deep_view().len() == ring@.len(),
            serialized@ == ring_ser(ring.deep_view().take(i as int)),
        decreases ring@.len() - i,
    {
        let point_str = serialize_point(&ring[i]);
        serialized.append(point_str.as_str());
        proof {
            let dv = ring.deep_view();
            assert(dv[i as int] == ring@[i as int]@);
            assert(dv.take(i + 1).drop_last() =~= dv.take(i as int));
            assert(dv.take(i + 1).last() == dv[i as int]);
        }
        i += 1;
    }
    proof {
        assert(ring.deep_view().take(ring@.len() as int) =~= ring.deep_view());
    }
    serialized
}

/// Parses a ring of hexadecimal point strings; fails if any member fails.
pub fn deserialize_ring(ring: &Vec<String>) -> (r: Result<Vec<Point>, String>)
    ensures
        r is Ok <==> (forall|i: int|
            0 <= i < ring.deep_view().len() ==> point_hex_ok(ring.deep_view()[i])),
        r matches Ok(v) ==> v@.len() == ring@.len() && (forall|i: int|
            0 <= i < v.deep_view().len() ==> v.deep_view()[i] == bytes_of_hex(
                ring.deep_view()[i],
            )),
{
    let mut deserialized_points: Vec<Point> = Vec::new();
    let mut i: usize = 0;
    while i < ring.len()
        invariant
            i <= ring@.len(),
            ring.deep_view().len() == ring@.len(),
            deserialized_points@.len() == i,
            deserialized_points.deep_view().len() == i,
            forall|k: int| 0 <= k < i ==> point_hex_ok(ring.deep_view()[k]),
            forall|k: int|
                0 <= k < i ==> deserialized_points.deep_view()[k] == bytes_of_hex(
                    ring.deep_view()[k],
                ),
        decreases ring@.len() - i,
    {
        let piece: &String = &ring[i];
        let deserialized_point = match deserialize_point(piece.clone()) {
            Ok(p) => p,
            Err(e) => {
                proof {
                    assert(ring.deep_view()[i as int] == ring@[i as int]@);
                    assert(!point_hex_ok(ring.deep_view()[i as int]));
                }
                return Err(e);
            },
        };
        let ghost pre = deserialized_points@;
        let ghost pre_dv = deserialized_points.deep_view();
        deserialized_points.push(deserialized_point);
        proof {
            assert(ring.deep_view()[i as int] == ring@[i as int]@);
            let dvp = deserialized_points.deep_view();
            assert forall|k: int| 0 <= k < i + 1 implies dvp[k] == bytes_of_hex(
                ring.deep_view()[k],
            ) by {
                assert(dvp[k] == deserialized_points@[k]@);
                if k < i {
                    assert(deserialized_points@[k] == pre[k]);
                    assert(pre_dv[k] == pre[k]@);
                }
            }
        }
        i += 1;
    }
    Ok(deserialized_points)
}

} // verus!
