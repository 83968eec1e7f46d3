//! Percent-encoding.

use vstd::prelude::*;
use vstd::utf8::*;

verus! {

/// Whether a byte stands for itself in a URL path segment.
pub open spec fn unreserved(b: u8) -> bool {
    ||| 65 <= b <= 90
    ||| 97 <= b <= 122
    ||| 48 <= b <= 57
    ||| b == 45
    ||| b == 46
    ||| b == 95
    ||| b == 126
}

/// The upper-case hexadecimal digit of a number below 16.
pub open spec fn hex_digit(n: int) -> char {
    if n < 10 {
        (48 + n) as char
    } else {
        (55 + n) as char
    }
}

/// One byte in a URL path segment.
pub open spec fn pct_byte(b: u8) -> Seq<char> {
    if unreserved(b) {
        seq![b as char]
    } else {
        seq!['%', hex_digit(b as int / 16), hex_digit(b as int % 16)]
    }
}

/// Bytes in a URL path segment.
pub open spec fn pct_encoded(bytes: Seq<u8>) -> Seq<char>
    decreases bytes.len(),
{
    if bytes.len() == 0 {
        Seq::empty()
    } else {
        pct_byte(bytes[0]) + pct_encoded(bytes.drop_first())
    }
}

fn hex_char(n: u8) -> (r: char)
    requires
        n < 16,
    ensures
        r == hex_digit(n as int),
{
    if n < 10 {
        (48 + n) as char
    } else {
        (55 + n) as char
    }
}

/// Percent-encodes a string for use as a single URL path segment.
pub fn pct_encode(s: &str) -> (r: String)
    ensures
        r@ == pct_encoded(encode_utf8(s@)),
{
    let bytes = s.as_bytes();
    let ghost all = encode_utf8(s@);
    let mut out = String::new();
    let mut i: usize = 0;
    assert(all.skip(0) =~= all);
    while i < bytes.len()
        invariant
            i <= bytes.len(),
            bytes@ == all,
            pct_encoded(all) == out@ + pct_encoded(all.skip(i as int)),
        decreases bytes.len() - i,
    {
        let b = bytes[i];
        let ghost before = out@;
        if (65 <= b && b <= 90) || (97 <= b && b <= 122) || (48 <= b && b <= 57) || b == 45 || b
            == 46 || b == 95 || b == 126 {
            out.push(b as char);
        } else {
            out.push('%');
            out.push(hex_char(b / 16));
            out.push(hex_char(b % 16));
        }
        assert(all.skip(i as int).drop_first() =~= all.skip(i + 1));
        assert(out@ =~= before + pct_byte(b));
        assert(before + (pct_byte(b) + pct_encoded(all.skip(i + 1))) =~= out@ + pct_encoded(
            all.skip(i + 1),
        ));
        i += 1;
    }
    assert(all.skip(i as int) =~= Seq::empty());
    assert(out@ + pct_encoded(all.skip(i as int)) =~= out@);
    out
}

// --- Laws ------------------------------------------------------------------

/// The number that a hexadecimal digit stands for.
pub open spec fn hex_value(c: char) -> int {
    if c <= '9' {
        c as int - 48
    } else {
        c as int - 55
    }
}

/// The bytes that a percent-encoded path segment stands for.
pub open spec fn pct_decoded(s: Seq<char>) -> Seq<u8>
    decreases s.len(),
{
    if s.len() == 0 {
        Seq::empty()
    } else if s[0] == '%' && s.len() >= 3 {
        seq![(hex_value(s[1]) * 16 + hex_value(s[2])) as u8] + pct_decoded(s.skip(3))
    } else {
        seq![s[0] as u8] + pct_decoded(s.drop_first())
    }
}

/// Decoding gives back the bytes that were encoded.
pub proof fn law_pct_decode_undoes_encode(bytes: Seq<u8>)
    ensures
        pct_decoded(pct_encoded(bytes)) == bytes,
    decreases bytes.len(),
{
    if bytes.len() > 0 {
        let b = bytes[0];
        let rest = pct_encoded(bytes.drop_first());
        let s = pct_encoded(bytes);
        law_pct_decode_undoes_encode(bytes.drop_first());
        if unreserved(b) {
            assert(s.drop_first() =~= rest);
            assert(s[0] == b as char);
            assert(s[0] != '%');
            assert(s[0] as u8 == b);
        } else {
            assert(s.skip(3) =~= rest);
            assert(hex_value(s[1]) * 16 + hex_value(s[2]) == b);
        }
        assert(pct_decoded(s) =~= bytes);
    }
}

/// Two different texts never share an encoded form.
pub proof fn law_pct_encode_is_injective(a: Seq<char>, b: Seq<char>)
    requires
        pct_encoded(encode_utf8(a)) == pct_encoded(encode_utf8(b)),
    ensures
        a == b,
{
    law_pct_decode_undoes_encode(encode_utf8(a));
    law_pct_decode_undoes_encode(encode_utf8(b));
    encode_utf8_decode_utf8(a);
    encode_utf8_decode_utf8(b);
}

/// An encoded text is one path segment: nothing but ASCII letters, digits, `-`,
/// `.`, `_`, `~` and `%` occurs in it.
pub proof fn law_pct_encoded_is_one_segment(bytes: Seq<u8>, i: int)
    requires
        0 <= i < pct_encoded(bytes).len(),
    ensures
        ({
            let c = pct_encoded(bytes)[i];
            c == '%' || (c < '\u{80}' && unreserved(c as u8))
        }),
    decreases bytes.len(),
{
    if bytes.len() > 0 {
        let head = pct_byte(bytes[0]);
        if i >= head.len() {
            law_pct_encoded_is_one_segment(bytes.drop_first(), i - head.len());
        }
    }
}

} // verus!
