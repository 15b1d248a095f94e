use vstd::prelude::*;
use vstd::utf8::{decode_utf8, encode_utf8, is_ascii_chars, valid_utf8};

use crate::util::parser::string_from_utf8;

verus! {

/// The ASCII bytes of the decimal digits of `n`, most significant first.
pub open spec fn decimal_bytes(n: nat) -> Seq<u8>
    decreases n,
{
    if n < 10 {
        seq![(48 + n) as u8]
    } else {
        decimal_bytes(n / 10) + seq![(48 + n % 10) as u8]
    }
}

/// The ASCII bytes of `v` written in decimal, with a leading `-` when it is
/// negative.
pub open spec fn signed_decimal_bytes(v: int) -> Seq<u8> {
    if v < 0 {
        seq![45u8] + decimal_bytes((-v) as nat)
    } else {
        decimal_bytes(v as nat)
    }
}

/// The characters of ASCII bytes.
pub open spec fn ascii_chars(b: Seq<u8>) -> Seq<char> {
    b.map_values(|x: u8| x as char)
}

/// Every byte is below 128.
pub open spec fn all_ascii(b: Seq<u8>) -> bool {
    forall|i: int| 0 <= i < b.len() ==> #[trigger] b[i] < 128
}

pub proof fn lemma_decimal_ascii(n: nat)
    ensures
        all_ascii(decimal_bytes(n)),
        decimal_bytes(n).len() >= 1,
    decreases n,
{
    if n >= 10 {
        lemma_decimal_ascii(n / 10);
    }
}

/// The number that ASCII decimal digits stand for, most significant first.
pub open spec fn digits_value(b: Seq<u8>) -> int
    decreases b.len(),
{
    if b.len() == 0 {
        0
    } else {
        digits_value(b.drop_last()) * 10 + (b.last() - 48)
    }
}

/// Decimal digits as written without padding: at least one digit, and no
/// leading `0` unless the number is zero.
pub open spec fn canonical_digits(b: Seq<u8>) -> bool {
    &&& b.len() >= 1
    &&& forall|i: int| 0 <= i < b.len() ==> 48 <= #[trigger] b[i] <= 57
    &&& b.len() > 1 ==> b[0] != 48
}

/// The number that signed decimal text stands for: an optional `-`, then
/// digits.
pub open spec fn signed_value(b: Seq<u8>) -> int {
    if b.len() > 0 && b[0] == 45 {
        -digits_value(b.drop_first())
    } else {
        digits_value(b)
    }
}

/// Signed decimal text as written without padding: canonical digits, after a
/// `-` only for a number other than zero.
pub open spec fn canonical_signed(b: Seq<u8>) -> bool {
    if b.len() > 0 && b[0] == 45 {
        canonical_digits(b.drop_first()) && b.drop_first() != seq![48u8]
    } else {
        canonical_digits(b)
    }
}

/// Reading the decimal digits of `n` gives `n` back, and they carry no
/// leading zero.
pub proof fn law_decimal_roundtrip(n: nat)
    ensures
        digits_value(decimal_bytes(n)) == n,
        canonical_digits(decimal_bytes(n)),
        n > 0 ==> decimal_bytes(n)[0] != 48,
    decreases n,
{
    let b = decimal_bytes(n);
    if n < 10 {
        assert(b.drop_last() =~= Seq::<u8>::empty());
        assert(b.last() == 48 + n);
        assert(digits_value(b) == digits_value(b.drop_last()) * 10 + (b.last() - 48));
    } else {
        law_decimal_roundtrip(n / 10);
        let h = decimal_bytes(n / 10);
        assert(b.drop_last() =~= h);
        assert(b.last() == 48 + n % 10);
        assert(digits_value(b) == digits_value(h) * 10 + (b.last() - 48));
        assert((n / 10) * 10 + n % 10 == n);
        assert(b[0] == h[0]);
        assert forall|i: int| 0 <= i < b.len() implies 48 <= #[trigger] b[i] <= 57 by {
            if i < h.len() {
                assert(b[i] == h[i]);
            }
        }
    }
}

/// Reading the signed decimal text of `v` gives `v` back, and the text is
/// the canonical one: a `-` only before a number other than zero, then
/// digits with no leading zero.
pub proof fn law_signed_decimal_roundtrip(v: int)
    ensures
        signed_value(signed_decimal_bytes(v)) == v,
        canonical_signed(signed_decimal_bytes(v)),
{
    if v < 0 {
        let d = decimal_bytes((-v) as nat);
        law_decimal_roundtrip((-v) as nat);
        let b = seq![45u8] + d;
        assert(b.drop_first() =~= d);
        assert(d[0] != 48);
        assert(d != seq![48u8]);
    } else {
        law_decimal_roundtrip(v as nat);
        assert(decimal_bytes(v as nat)[0] != 45);
    }
}

/// Appends the decimal digits of `n`.
pub fn push_decimal(buf: &mut Vec<u8>, n: u64)
    ensures
        final(buf)@ == old(buf)@ + decimal_bytes(n as nat),
    decreases n,
{
    if n >= 10 {
        push_decimal(buf, n / 10);
    }
    buf.push((48 + n % 10) as u8);
    assert(buf@ =~= old(buf)@ + decimal_bytes(n as nat));
}

/// Appends `v` in decimal, with a leading `-` when it is negative.
pub fn push_signed_decimal(buf: &mut Vec<u8>, v: i64)
    ensures
        final(buf)@ == old(buf)@ + signed_decimal_bytes(v as int),
{
    if v < 0 {
        buf.push(45u8);
        let magnitude: u64 = ((-(v + 1)) as u64) + 1;
        push_decimal(buf, magnitude);
        assert(buf@ =~= old(buf)@ + signed_decimal_bytes(v as int));
    } else {
        push_decimal(buf, v as u64);
    }
}

/// Turns ASCII bytes into the string of the same characters.
pub fn ascii_string(bytes: Vec<u8>) -> (s: String)
    requires
        all_ascii(bytes@),
    ensures
        s@ == ascii_chars(bytes@),
{
    let ghost chars = ascii_chars(bytes@);
    proof {
        assert(is_ascii_chars(chars));
        vstd::utf8::is_ascii_chars_encode_utf8(chars);
        assert forall|i: int| 0 <= i < bytes@.len() implies (#[trigger] chars[i]) as u8 == bytes@[i] by {
            assert(chars[i] == bytes@[i] as char);
        }
        assert(encode_utf8(chars) =~= bytes@);
        vstd::utf8::encode_utf8_valid_utf8(chars);
        vstd::utf8::encode_utf8_decode_utf8(chars);
    }
    match string_from_utf8(bytes) {
        Some(s) => s,
        None => {
            assert(false);
            String::new()
        },
    }
}


pub proof fn lemma_all_ascii_concat(a: Seq<u8>, b: Seq<u8>)
    requires
        all_ascii(a),
        all_ascii(b),
    ensures
        all_ascii(a + b),
{
    assert forall|i: int| 0 <= i < (a + b).len() implies #[trigger] (a + b)[i] < 128 by {
        if i < a.len() {
            assert((a + b)[i] == a[i]);
        } else {
            assert((a + b)[i] == b[i - a.len()]);
        }
    }
}

} // verus!
