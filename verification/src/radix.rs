//! Numeric values of byte strings and digit strings: big- and little-endian
//! byte values, hexadecimal and decimal character strings, and the lemmas
//! that connect them.

use vstd::prelude::*;

verus! {

/// Value of a byte string read as a big-endian unsigned integer.
pub open spec fn be_val(s: Seq<u8>) -> nat
    decreases s.len(),
{
    if s.len() == 0 {
        0
    } else {
        (be_val(s.drop_last()) * 256 + s.last()) as nat
    }
}

/// Value of a byte string read as a little-endian unsigned integer.
pub open spec fn le_val(s: Seq<u8>) -> nat
    decreases s.len(),
{
    if s.len() == 0 {
        0
    } else {
        (s.first() + le_val(s.drop_first()) * 256) as nat
    }
}

/// Value of a little-endian string of decimal digits.
pub open spec fn dec_digits_val(s: Seq<u8>) -> nat
    decreases s.len(),
{
    if s.len() == 0 {
        0
    } else {
        (s.first() + dec_digits_val(s.drop_first()) * 10) as nat
    }
}

pub open spec fn pow256(k: nat) -> nat
    decreases k,
{
    if k == 0 {
        1
    } else {
        256 * pow256((k - 1) as nat)
    }
}

pub open spec fn pow10(k: nat) -> nat
    decreases k,
{
    if k == 0 {
        1
    } else {
        10 * pow10((k - 1) as nat)
    }
}

/// The lowercase hexadecimal digit character for a value below sixteen;
/// the first ten double as the decimal digit characters.
pub open spec fn hex_char(d: nat) -> char {
    if d == 0 {
        '0'
    } else if d == 1 {
        '1'
    } else if d == 2 {
        '2'
    } else if d == 3 {
        '3'
    } else if d == 4 {
        '4'
    } else if d == 5 {
        '5'
    } else if d == 6 {
        '6'
    } else if d == 7 {
        '7'
    } else if d == 8 {
        '8'
    } else if d == 9 {
        '9'
    } else if d == 10 {
        'a'
    } else if d == 11 {
        'b'
    } else if d == 12 {
        'c'
    } else if d == 13 {
        'd'
    } else if d == 14 {
        'e'
    } else {
        'f'
    }
}

pub open spec fn is_hex_digit(c: char) -> bool {
    ('0' as int <= c as int && c as int <= '9' as int) || ('a' as int <= c as int && c as int
        <= 'f' as int) || ('A' as int <= c as int && c as int <= 'F' as int)
}

/// Numeric value of one hexadecimal digit character, either case.
pub open spec fn nibble_val(c: char) -> nat {
    if '0' as int <= c as int && c as int <= '9' as int {
        (c as int - '0' as int) as nat
    } else if 'a' as int <= c as int && c as int <= 'f' as int {
        (c as int - 'a' as int + 10) as nat
    } else if 'A' as int <= c as int && c as int <= 'F' as int {
        (c as int - 'A' as int + 10) as nat
    } else {
        0
    }
}

/// Value of a hexadecimal character string read as a big-endian integer.
pub open spec fn hex_val(s: Seq<char>) -> nat
    decreases s.len(),
{
    if s.len() == 0 {
        0
    } else {
        (hex_val(s.drop_last()) * 16 + nibble_val(s.last())) as nat
    }
}

pub open spec fn all_hex_digits(s: Seq<char>) -> bool {
    forall|i: int| 0 <= i < s.len() ==> is_hex_digit(s[i])
}

/// Lowercase hexadecimal rendering of a byte string, two digits per byte.
pub open spec fn hex_of_bytes(s: Seq<u8>) -> Seq<char>
    decreases s.len(),
{
    if s.len() == 0 {
        Seq::empty()
    } else {
        hex_of_bytes(s.drop_last()) + seq![
            hex_char((s.last() / 16) as nat),
            hex_char((s.last() % 16) as nat),
        ]
    }
}

/// Bytes of an even-length hexadecimal character string.
pub open spec fn bytes_of_hex(s: Seq<char>) -> Seq<u8> {
    Seq::new(s.len() / 2, |i: int| (nibble_val(s[2 * i]) * 16 + nibble_val(s[2 * i + 1])) as u8)
}

/// Decimal rendering of a positive integer; empty for zero.
pub open spec fn dec_str_rec(n: nat) -> Seq<char>
    decreases n,
{
    if n == 0 {
        Seq::empty()
    } else {
        dec_str_rec(n / 10) + seq![hex_char(n % 10)]
    }
}

/// Decimal rendering of an integer, without leading zeros.
pub open spec fn dec_str_of(n: nat) -> Seq<char> {
    if n == 0 {
        seq!['0']
    } else {
        dec_str_rec(n)
    }
}

pub proof fn lemma_le_val_bound(s: Seq<u8>)
    ensures
        le_val(s) < pow256(s.len()),
    decreases s.len(),
{
    if s.len() > 0 {
        lemma_le_val_bound(s.drop_first());
        let p = pow256((s.len() - 1) as nat);
        assert(le_val(s.drop_first()) * 256 <= (p - 1) * 256) by (nonlinear_arith)
            requires
                le_val(s.drop_first()) <= p - 1,
        ;
        assert(pow256(s.len()) == 256 * p);
    }
}

pub proof fn lemma_pow256_le(a: nat, b: nat)
    requires
        a <= b,
    ensures
        pow256(a) <= pow256(b),
    decreases b,
{
    if a < b {
        lemma_pow256_le(a, (b - 1) as nat);
        assert(pow256(b) == 256 * pow256((b - 1) as nat));
    }
}

pub proof fn lemma_be_val_zero(s: Seq<u8>)
    ensures
        (be_val(s) == 0) <==> (forall|i: int| 0 <= i < s.len() ==> s[i] == 0),
    decreases s.len(),
{
    if s.len() > 0 {
        lemma_be_val_zero(s.drop_last());
        if be_val(s) == 0 {
            assert forall|i: int| 0 <= i < s.len() implies s[i] == 0 by {
                if i < s.len() - 1 {
                    assert(s.drop_last()[i] == s[i]);
                }
            }
        }
        if forall|i: int| 0 <= i < s.len() ==> s[i] == 0 {
            assert forall|i: int| 0 <= i < s.drop_last().len() implies s.drop_last()[i] == 0 by {
                assert(s.drop_last()[i] == s[i]);
            }
        }
    }
}

pub proof fn lemma_hex_of_bytes_props(s: Seq<u8>)
    ensures
        hex_of_bytes(s).len() == 2 * s.len(),
        all_hex_digits(hex_of_bytes(s)),
    decreases s.len(),
{
    if s.len() > 0 {
        lemma_hex_of_bytes_props(s.drop_last());
        let h = hex_of_bytes(s.drop_last());
        let c1 = hex_char((s.last() / 16) as nat);
        let c2 = hex_char((s.last() % 16) as nat);
        assert forall|i: int| 0 <= i < hex_of_bytes(s).len() implies is_hex_digit(
            hex_of_bytes(s)[i],
        ) by {
            if i < h.len() {
                assert(hex_of_bytes(s)[i] == h[i]);
            }
        }
    }
}

/// Reading the hexadecimal rendering of a byte string back as an integer
/// gives the string's big-endian value.
pub proof fn lemma_hex_val_of_hex_of_bytes(s: Seq<u8>)
    ensures
        hex_val(hex_of_bytes(s)) == be_val(s),
    decreases s.len(),
{
    if s.len() > 0 {
        lemma_hex_val_of_hex_of_bytes(s.drop_last());
        let h = hex_of_bytes(s.drop_last());
        let hi = (s.last() / 16) as nat;
        let lo = (s.last() % 16) as nat;
        let w = h + seq![hex_char(hi), hex_char(lo)];
        assert(w.drop_last() =~= h + seq![hex_char(hi)]);
        assert(w.drop_last().drop_last() =~= h);
        assert(nibble_val(hex_char(hi)) == hi);
        assert(nibble_val(hex_char(lo)) == lo);
        assert(w.len() > 0 && w.last() == hex_char(lo));
        assert(w.drop_last().len() > 0 && w.drop_last().last() == hex_char(hi));
        assert(hex_val(w.drop_last()) == hex_val(h) * 16 + hi);
        assert(hex_val(w) == (hex_val(h) * 16 + hi) * 16 + lo);
        assert((be_val(s.drop_last()) * 16 + hi) * 16 + lo == be_val(s.drop_last()) * 256 + hi * 16
            + lo) by (nonlinear_arith);
        assert(hi * 16 + lo == s.last()) by {
            assert(s.last() / 16 * 16 + s.last() % 16 == s.last());
        }
    }
}

/// Each character of the hexadecimal rendering, by index.
pub proof fn lemma_hex_of_bytes_index(s: Seq<u8>, i: int)
    requires
        0 <= i < s.len(),
    ensures
        hex_of_bytes(s).len() == 2 * s.len(),
        hex_of_bytes(s)[2 * i] == hex_char((s[i] / 16) as nat),
        hex_of_bytes(s)[2 * i + 1] == hex_char((s[i] % 16) as nat),
    decreases s.len(),
{
    lemma_hex_of_bytes_props(s);
    if i == s.len() - 1 {
        lemma_hex_of_bytes_props(s.drop_last());
    } else {
        lemma_hex_of_bytes_index(s.drop_last(), i);
        assert(s.drop_last()[i] == s[i]);
        assert(hex_of_bytes(s)[2 * i] == hex_of_bytes(s.drop_last())[2 * i]);
        assert(hex_of_bytes(s)[2 * i + 1] == hex_of_bytes(s.drop_last())[2 * i + 1]);
    }
}

/// Parsing the hexadecimal rendering of bytes gives the bytes back.
pub proof fn lemma_bytes_of_hex_of_bytes(s: Seq<u8>)
    ensures
        bytes_of_hex(hex_of_bytes(s)) =~= s,
{
    lemma_hex_of_bytes_props(s);
    assert forall|i: int| 0 <= i < s.len() implies bytes_of_hex(hex_of_bytes(s))[i] == s[i] by {
        lemma_hex_of_bytes_index(s, i);
        assert(nibble_val(hex_char((s[i] / 16) as nat)) == (s[i] / 16) as nat);
        assert(nibble_val(hex_char((s[i] % 16) as nat)) == (s[i] % 16) as nat);
        assert(s[i] / 16 * 16 + s[i] % 16 == s[i]);
    }
}

/// Appending one digit raises the value by the digit at the next weight.
pub proof fn lemma_dec_digits_val_push(s: Seq<u8>, x: u8)
    ensures
        dec_digits_val(s.push(x)) == dec_digits_val(s) + x * pow10(s.len()),
    decreases s.len(),
{
    if s.len() == 0 {
        let e = s.push(x);
        assert(e.len() == 1);
        assert(e.first() == x);
        assert(e.drop_first() =~= Seq::<u8>::empty());
        assert(dec_digits_val(e.drop_first()) == 0);
        assert(dec_digits_val(e) == (e.first() + dec_digits_val(e.drop_first()) * 10) as nat);
        assert(pow10(0) == 1);
    } else {
        lemma_dec_digits_val_push(s.drop_first(), x);
        assert(s.push(x).drop_first() =~= s.drop_first().push(x));
        assert(s.push(x).first() == s.first());
        let p = pow10((s.len() - 1) as nat);
        assert(dec_digits_val(s.push(x)) == s.first() + (dec_digits_val(s.drop_first()) + x * p)
            * 10);
        assert((dec_digits_val(s.drop_first()) + x * p) * 10 == dec_digits_val(s.drop_first()) * 10
            + (x * p) * 10);
        assert((x * p) * 10 == x * (10 * p)) by (nonlinear_arith);
        assert(pow10(s.len()) == 10 * p);
    }
}

/// Parsing a hexadecimal string gives bytes with the string's value.
pub proof fn lemma_be_val_of_bytes_of_hex(s: Seq<char>)
    requires
        s.len() % 2 == 0,
    ensures
        be_val(bytes_of_hex(s)) == hex_val(s),
        bytes_of_hex(s).len() == s.len() / 2,
    decreases s.len(),
{
    if s.len() > 0 {
        let t = s.drop_last().drop_last();
        assert(t.len() % 2 == 0);
        lemma_be_val_of_bytes_of_hex(t);
        let c1 = s[s.len() - 2];
        let c2 = s[s.len() - 1];
        let b = bytes_of_hex(s);
        assert(b.drop_last() =~= bytes_of_hex(t)) by {
            assert forall|i: int| 0 <= i < b.len() - 1 implies b.drop_last()[i] == bytes_of_hex(
                t,
            )[i] by {
                assert(t[2 * i] == s[2 * i]);
                assert(t[2 * i + 1] == s[2 * i + 1]);
            }
        }
        assert(b.last() == (nibble_val(c1) * 16 + nibble_val(c2)) as u8);
        assert(s.len() >= 2);
        assert(s.last() == c2);
        assert(s.drop_last().len() == s.len() - 1);
        assert(s.drop_last().last() == c1);
        assert(hex_val(s) == hex_val(s.drop_last()) * 16 + nibble_val(c2));
        assert(hex_val(s.drop_last()) == hex_val(t) * 16 + nibble_val(c1));
        assert(hex_val(s) == (hex_val(t) * 16 + nibble_val(c1)) * 16 + nibble_val(c2));
        assert(nibble_val(c1) < 16 && nibble_val(c2) < 16);
        assert(be_val(b) == be_val(b.drop_last()) * 256 + b.last());
        assert((hex_val(t) * 16 + nibble_val(c1)) * 16 + nibble_val(c2) == hex_val(t) * 256
            + (nibble_val(c1) * 16 + nibble_val(c2))) by (nonlinear_arith);
    }
}

pub proof fn lemma_dec_digits_val_pos(s: Seq<u8>)
    requires
        s.len() > 0,
        s.last() != 0,
    ensures
        dec_digits_val(s) > 0,
    decreases s.len(),
{
    if s.len() == 1 {
        assert(s.first() == s.last());
    } else {
        assert(s.drop_first().last() == s.last());
        lemma_dec_digits_val_pos(s.drop_first());
    }
}

/// A little-endian digit string with no trailing zero renders, reversed,
/// as the decimal form of its value.
pub proof fn lemma_dec_str_of_digits(s: Seq<u8>)
    requires
        forall|i: int| 0 <= i < s.len() ==> s[i] < 10,
        s.len() > 0 ==> s.last() != 0,
    ensures
        dec_str_rec(dec_digits_val(s)) =~= Seq::new(s.len(), |i: int| hex_char(s[s.len() - 1 - i] as nat)),
    decreases s.len(),
{
    if s.len() > 0 {
        let t = s.drop_first();
        let v = dec_digits_val(s);
        let vt = dec_digits_val(t);
        assert(v == s.first() + vt * 10);
        assert(v % 10 == s.first() && v / 10 == vt) by (nonlinear_arith)
            requires
                v == s.first() + vt * 10,
                s.first() < 10,
        ;
        if t.len() > 0 {
            assert(t.last() == s.last());
            lemma_dec_str_of_digits(t);
        } else {
            assert(vt == 0);
        }
        assert(v != 0) by {
            lemma_dec_digits_val_pos(s);
        }
        assert(dec_str_rec(v) == dec_str_rec(vt) + seq![hex_char(s.first() as nat)]);
        let goal = Seq::new(s.len(), |i: int| hex_char(s[s.len() - 1 - i] as nat));
        assert forall|i: int| 0 <= i < s.len() implies dec_str_rec(v)[i] == goal[i] by {
            if i < s.len() - 1 {
                assert(dec_str_rec(v)[i] == dec_str_rec(vt)[i]);
                assert(dec_str_rec(vt)[i] == hex_char(t[t.len() - 1 - i] as nat));
                assert(t[t.len() - 1 - i] == s[s.len() - 1 - i]);
            } else {
                assert(dec_str_rec(v)[i] == hex_char(s.first() as nat));
                assert(s[s.len() - 1 - i] == s.first());
            }
        }
        assert(dec_str_rec(v).len() == goal.len()) by {
            assert(dec_str_rec(vt).len() == t.len());
        }
    }
}

} // verus!
