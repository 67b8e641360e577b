//! Executable encoders between byte strings and the textual forms that the
//! ring-challenge hash mixes: lowercase hexadecimal and big decimal.

use vstd::prelude::*;
use vstd::string::*;

use crate::errors::LsagError;
use crate::radix::{
    all_hex_digits, bytes_of_hex, dec_digits_val, dec_str_of, hex_char, hex_of_bytes, hex_val,
    is_hex_digit, lemma_dec_digits_val_pos, lemma_dec_digits_val_push, lemma_dec_str_of_digits,
    nibble_val, pow10,
};

verus! {

/// Byte-for-byte equality of two byte strings.
pub(crate) fn bytes_eq(a: &Vec<u8>, b: &Vec<u8>) -> (r: bool)
    ensures
        r == (a@ == b@),
{
    if a.len() != b.len() {
        proof {
            assert(a@ != b@);
        }
        return false;
    }
    let mut i: usize = 0;
    while i < a.len()
        invariant
            i <= a@.len(),
            a@.len() == b@.len(),
            forall|k: int| 0 <= k < i ==> a@[k] == b@[k],
        decreases a@.len() - i,
    {
        if a[i] != b[i] {
            proof {
                assert(a@[i as int] != b@[i as int]);
            }
            return false;
        }
        i += 1;
    }
    proof {
        assert(a@ =~= b@);
    }
    true
}

/// One-character string slice for a digit value below sixteen.
fn digit_str(d: u8) -> (r: &'static str)
    requires
        d < 16,
    ensures
        r@ == seq![hex_char(d as nat)],
{
    proof {
        reveal_strlit("0");
        reveal_strlit("1");
        reveal_strlit("2");
        reveal_strlit("3");
        reveal_strlit("4");
        reveal_strlit("5");
        reveal_strlit("6");
        reveal_strlit("7");
        reveal_strlit("8");
        reveal_strlit("9");
        reveal_strlit("a");
        reveal_strlit("b");
        reveal_strlit("c");
        reveal_strlit("d");
        reveal_strlit("e");
        reveal_strlit("f");
    }
    let r: &'static str = match d {
        0 => "0",
        1 => "1",
        2 => "2",
        3 => "3",
        4 => "4",
        5 => "5",
        6 => "6",
        7 => "7",
        8 => "8",
        9 => "9",
        10 => "a",
        11 => "b",
        12 => "c",
        13 => "d",
        14 => "e",
        _ => "f",
    };
    proof {
        assert(r@ =~= seq![hex_char(d as nat)]);
    }
    r
}

/// Numeric value of a hexadecimal digit character, either case.
fn nibble_of_char(c: char) -> (r: Option<u8>)
    ensures
        match r {
            Some(n) => is_hex_digit(c) && n < 16 && n as nat == nibble_val(c),
            None => !is_hex_digit(c),
        },
{
    let u = c as u32;
    if 48 <= u && u <= 57 {
        Some((u - 48) as u8)
    } else if 97 <= u && u <= 102 {
        Some((u - 87) as u8)
    } else if 65 <= u && u <= 70 {
        Some((u - 55) as u8)
    } else {
        None
    }
}

/// Lowercase hexadecimal rendering of a byte string, two digits per byte.
pub fn bytes_to_hex(v: &Vec<u8>) -> (r: String)
    ensures
        r@ == hex_of_bytes(v@),
{
    let mut r = String::new();
    let mut i: usize = 0;
    while i < v.len()
        invariant
            i <= v@.len(),
            r@ == hex_of_bytes(v@.take(i as int)),
        decreases v@.len() - i,
    {
        let b = v[i];
        r.append(digit_str(b / 16));
        r.append(digit_str(b % 16));
        proof {
            let t = v@.take(i + 1);
            assert(t.drop_last() =~= v@.take(i as int));
            assert(t.last() == v@[i as int]);
            assert(r@ =~= hex_of_bytes(t));
        }
        i += 1;
    }
    proof {
        assert(v@.take(v@.len() as int) =~= v@);
    }
    r
}

/// Bytes of an even-length hexadecimal character string; `None` when the
/// length is odd or any character is not a hexadecimal digit.
pub fn hex_str_to_bytes(s: &str) -> (r: Option<Vec<u8>>)
    ensures
        match r {
            Some(v) => s@.len() % 2 == 0 && all_hex_digits(s@) && v@ == bytes_of_hex(s@),
            None => !(s@.len() % 2 == 0 && all_hex_digits(s@)),
        },
{
    let n = s.unicode_len();
    if n % 2 != 0 {
        return None;
    }
    let mut v: Vec<u8> = Vec::new();
    let mut i: usize = 0;
    while i < n
        invariant
            n == s@.len(),
            n % 2 == 0,
            i % 2 == 0,
            i <= n,
            v@.len() == i / 2,
            forall|k: int| 0 <= k < i ==> is_hex_digit(s@[k]),
            forall|k: int| 0 <= k < i / 2 ==> v@[k] == bytes_of_hex(s@)[k],
        decreases n - i,
    {
        let c1 = s.get_char(i);
        let c2 = s.get_char(i + 1);
        let n1 = match nibble_of_char(c1) {
            Some(x) => x,
            None => {
                proof {
                    assert(!is_hex_digit(s@[i as int]));
                }
                return None;
            },
        };
        let n2 = match nibble_of_char(c2) {
            Some(x) => x,
            None => {
                proof {
                    assert(!is_hex_digit(s@[i as int + 1]));
                }
                return None;
            },
        };
        v.push(n1 * 16 + n2);
        i += 2;
    }
    proof {
        assert(v@ =~= bytes_of_hex(s@));
    }
    Some(v)
}

/// Multiplies a little-endian decimal digit string by sixteen and adds one
/// hexadecimal digit, keeping the digits canonical.
fn mul16_add(digits: &mut Vec<u8>, d: u8)
    requires
        d < 16,
        forall|k: int| 0 <= k < old(digits)@.len() ==> old(digits)@[k] < 10,
        old(digits)@.len() > 0 ==> old(digits)@.last() != 0,
    ensures
        dec_digits_val(final(digits)@) == dec_digits_val(old(digits)@) * 16 + d,
        forall|k: int| 0 <= k < final(digits)@.len() ==> final(digits)@[k] < 10,
        final(digits)@.len() > 0 ==> final(digits)@.last() != 0,
{
    let ghost orig = digits@;
    let mut carry: u16 = d as u16;
    let mut j: usize = 0;
    proof {
        assert(digits@.take(0) =~= Seq::<u8>::empty());
        assert(orig.take(0) =~= Seq::<u8>::empty());
        assert(digits@.skip(0) =~= orig.skip(0));
        assert(dec_digits_val(Seq::<u8>::empty()) == 0);
        assert(pow10(0) == 1);
    }
    while j < digits.len()
        invariant
            d < 16,
            j <= digits@.len(),
            digits@.len() == orig.len(),
            carry <= 15,
            digits@.skip(j as int) =~= orig.skip(j as int),
            forall|k: int| 0 <= k < orig.len() ==> orig[k] < 10,
            forall|k: int| 0 <= k < j ==> digits@[k] < 10,
            dec_digits_val(digits@.take(j as int)) + carry * pow10(j as nat) == 16
                * dec_digits_val(orig.take(j as int)) + d,
            carry == 0 ==> j == 0 || digits@[j - 1] != 0 || orig[j - 1] == 0,
        decreases digits@.len() - j,
    {
        let a = digits[j];
        proof {
            assert(digits@.skip(j as int)[0] == digits@[j as int]);
            assert(orig.skip(j as int)[0] == orig[j as int]);
            assert(a == orig[j as int]);
        }
        let t: u16 = (a as u16) * 16 + carry;
        let dj = (t % 10) as u8;
        let ghost pre = digits@;
        digits.set(j, dj);
        proof {
            assert(digits@.take(j as int) =~= pre.take(j as int));
            let g1 = orig.take(j as int).push(orig[j as int]);
            assert(g1 =~= orig.take(j + 1));
            lemma_dec_digits_val_push(orig.take(j as int), orig[j as int]);
            let g2 = digits@.take(j as int).push(dj);
            assert(g2 =~= digits@.take(j + 1));
            lemma_dec_digits_val_push(digits@.take(j as int), dj);
            assert forall|ii: int| 0 <= ii < orig.len() - (j + 1) implies #[trigger] digits@.skip(
                j + 1,
            )[ii] == orig.skip(j + 1)[ii] by {
                assert(digits@.skip(j + 1)[ii] == pre[j + 1 + ii]);
                assert(pre.skip(j as int)[1 + ii] == orig.skip(j as int)[1 + ii]);
            }
            assert(digits@.skip(j + 1) =~= orig.skip(j + 1));
            let p = pow10(j as nat);
            assert(pow10((j + 1) as nat) == 10 * p);
            assert(dec_digits_val(digits@.take(j + 1)) + (t / 10) * pow10((j + 1) as nat) == 16
                * dec_digits_val(orig.take(j + 1)) + d) by (nonlinear_arith)
                requires
                    dec_digits_val(digits@.take(j + 1)) == dec_digits_val(digits@.take(j as int))
                        + (t % 10) * p,
                    dec_digits_val(orig.take(j + 1)) == dec_digits_val(orig.take(j as int))
                        + orig[j as int] * p,
                    dec_digits_val(digits@.take(j as int)) + carry * p == 16 * dec_digits_val(
                        orig.take(j as int),
                    ) + d,
                    t == orig[j as int] * 16 + carry,
                    pow10((j + 1) as nat) == 10 * p,
                    t % 10 + (t / 10) * 10 == t,
            ;
        }
        carry = t / 10;
        j += 1;
    }
    proof {
        assert(digits@.take(j as int) =~= digits@);
        assert(orig.take(j as int) =~= orig);
    }
    while carry > 0
        invariant
            forall|k: int| 0 <= k < digits@.len() ==> digits@[k] < 10,
            dec_digits_val(digits@) + carry * pow10(digits@.len()) == 16 * dec_digits_val(orig)
                + d,
            carry == 0 ==> digits@.len() == 0 || digits@.last() != 0,
            carry > 0 ==> carry <= u16::MAX,
        decreases carry,
    {
        let dj = (carry % 10) as u8;
        let ghost pre = digits@;
        digits.push(dj);
        proof {
            assert(digits@.drop_last() =~= pre);
            lemma_dec_digits_val_push(digits@.drop_last(), dj);
            assert(digits@.drop_last().push(dj) =~= digits@);
            let p = pow10((digits@.len() - 1) as nat);
            assert(pow10(digits@.len()) == 10 * p);
            assert(dec_digits_val(digits@) + (carry / 10) * pow10(digits@.len()) == 16
                * dec_digits_val(orig) + d) by (nonlinear_arith)
                requires
                    dec_digits_val(digits@) == dec_digits_val(digits@.drop_last()) + (carry % 10)
                        * p,
                    dec_digits_val(digits@.drop_last()) + carry * p == 16 * dec_digits_val(orig)
                        + d,
                    pow10(digits@.len()) == 10 * p,
                    carry % 10 + (carry / 10) * 10 == carry,
            ;
            if carry / 10 == 0 {
                assert(carry % 10 == carry);
                assert(digits@.last() == dj);
            }
        }
        carry = carry / 10;
    }
}

/// Reads a hexadecimal string as a big-endian unsigned integer and renders
/// that integer in decimal, without leading zeros.
///
/// The ring-challenge preimage mixes this decimal form of the Keccak message
/// digest; it must be byte-stable, so it is pinned to `dec_str_of`.
pub fn hex_to_decimal(h: &str) -> (r: Result<String, LsagError>)
    ensures
        r is Ok <==> all_hex_digits(h@),
        r matches Ok(d) ==> d@ == dec_str_of(hex_val(h@)),
        r is Err ==> r == Err::<String, LsagError>(LsagError::BadInput),
{
    let n = h.unicode_len();
    let mut digits: Vec<u8> = Vec::new();
    let mut i: usize = 0;
    while i < n
        invariant
            n == h@.len(),
            i <= n,
            forall|k: int| 0 <= k < i ==> is_hex_digit(h@[k]),
            forall|k: int| 0 <= k < digits@.len() ==> digits@[k] < 10,
            digits@.len() > 0 ==> digits@.last() != 0,
            dec_digits_val(digits@) == hex_val(h@.take(i as int)),
        decreases n - i,
    {
        let c = h.get_char(i);
        let nb = match nibble_of_char(c) {
            Some(x) => x,
            None => {
                proof {
                    assert(!is_hex_digit(h@[i as int]));
                }
                return Err(LsagError::BadInput);
            },
        };
        mul16_add(&mut digits, nb);
        proof {
            assert(h@.take(i + 1).drop_last() =~= h@.take(i as int));
            assert(h@.take(i + 1).last() == h@[i as int]);
        }
        i += 1;
    }
    proof {
        assert(h@.take(n as int) =~= h@);
    }
    let m = digits.len();
    if m == 0 {
        let r = String::from_str("0");
        proof {
            reveal_strlit("0");
            assert(r@ =~= dec_str_of(0));
        }
        return Ok(r);
    }
    let mut out = String::new();
    let mut k: usize = 0;
    while k < m
        invariant
            m == digits@.len(),
            k <= m,
            out@ =~= Seq::new(k as nat, |i: int| hex_char(digits@[m - 1 - i] as nat)),
            forall|q: int| 0 <= q < digits@.len() ==> digits@[q] < 10,
        decreases m - k,
    {
        out.append(digit_str(digits[m - 1 - k]));
        proof {
            assert(out@ =~= Seq::new((k + 1) as nat, |i: int| hex_char(digits@[m - 1 - i] as nat)));
        }
        k += 1;
    }
    proof {
        lemma_dec_str_of_digits(digits@);
        lemma_dec_digits_val_pos(digits@);
        assert(out@ =~= dec_str_of(hex_val(h@)));
    }
    Ok(out)
}

} // verus!
