//! Lowercase hexadecimal encoding of byte sequences, and the reading of hex
//! digit pairs.
use vstd::prelude::*;
use vstd::utf8::*;

verus! {

broadcast use vstd::utf8::group_utf8_lib;

/// The lowercase hex digit for a value below 16.
pub open spec fn hex_digit(d: int) -> char {
    if d < 10 {
        (48 + d) as char
    } else {
        (87 + d) as char
    }
}

/// Lowercase hex encoding: two digits per byte, high nibble first.
pub open spec fn hex_encode(s: Seq<u8>) -> Seq<char> {
    Seq::new(
        2 * s.len(),
        |k: int|
            if k % 2 == 0 {
                hex_digit((s[k / 2] / 16) as int)
            } else {
                hex_digit((s[k / 2] % 16) as int)
            },
    )
}

/// The value of a byte that is an ASCII hex digit (`0-9`, `a-f`, `A-F`).
pub open spec fn hex_byte_value(b: u8) -> Option<u8> {
    if 48 <= b <= 57 {
        Some((b - 48) as u8)
    } else if 97 <= b <= 102 {
        Some((b - 87) as u8)
    } else if 65 <= b <= 70 {
        Some((b - 55) as u8)
    } else {
        None
    }
}

/// Pair number `k` of `b` (bytes `2k` and `2k + 1`) is two hex digits.
pub open spec fn hex_pair_ok(b: Seq<u8>, k: int) -> bool {
    &&& hex_byte_value(b[2 * k]) is Some
    &&& hex_byte_value(b[2 * k + 1]) is Some
}

/// The first `k` pairs of `b` are hex digits.
pub open spec fn hex_pairs_ok(b: Seq<u8>, k: int) -> bool {
    forall|j: int| 0 <= j < k ==> #[trigger] hex_pair_ok(b, j)
}

/// The byte that pair number `k` writes, high digit first.
pub open spec fn hex_pair_value(b: Seq<u8>, k: int) -> u8 {
    (hex_byte_value(b[2 * k])->0 * 16 + hex_byte_value(b[2 * k + 1])->0) as u8
}

/// The value of one hex digit byte.
pub fn hex_byte_value_exec(b: u8) -> (r: Option<u8>)
    ensures
        r == hex_byte_value(b),
{
    if 48 <= b && b <= 57 {
        Some(b - 48)
    } else if 97 <= b && b <= 102 {
        Some(b - 87)
    } else if 65 <= b && b <= 70 {
        Some(b - 55)
    } else {
        None
    }
}

/// Reads two hex digit bytes, high digit first, as one byte; `None` when
/// either is not a hex digit.
pub fn read_hex_pair(hi: u8, lo: u8) -> (r: Option<u8>)
    ensures
        r == (if hex_byte_value(hi) is Some && hex_byte_value(lo) is Some {
            Some((hex_byte_value(hi)->0 * 16 + hex_byte_value(lo)->0) as u8)
        } else {
            None
        }),
{
    match (hex_byte_value_exec(hi), hex_byte_value_exec(lo)) {
        (Some(h), Some(l)) => Some(h * 16 + l),
        _ => None,
    }
}

/// Appends one character to a string with `String::push`.
#[verifier::external_body]
pub(crate) fn push_char(s: &mut String, c: char)
    ensures
        final(s)@ == old(s)@.push(c),
{
    s.push(c)
}

/// The lowercase hex digit character of a value below 16.
pub fn hex_digit_char(d: u8) -> (c: char)
    requires
        d < 16,
    ensures
        c == hex_digit(d as int),
{
    if d < 10 {
        (48u8 + d) as char
    } else {
        (87u8 + d) as char
    }
}

/// Appends the two hex digits of `b` to `s`.
pub fn push_hex_byte(s: &mut String, b: u8)
    ensures
        final(s)@ == old(s)@ + hex_encode(seq![b]),
{
    let hi = hex_digit_char(b / 16);
    let lo = hex_digit_char(b % 16);
    push_char(s, hi);
    push_char(s, lo);
    assert(final(s)@ =~= old(s)@ + hex_encode(seq![b]));
}

/// Encoding a sequence extended by one byte extends the encoding by that
/// byte's two digits.
pub proof fn lemma_hex_encode_push(s: Seq<u8>, b: u8)
    ensures
        hex_encode(s.push(b)) =~= hex_encode(s) + hex_encode(seq![b]),
{
    let l = hex_encode(s.push(b));
    let r = hex_encode(s) + hex_encode(seq![b]);
    assert forall|k: int| 0 <= k < l.len() implies l[k] == r[k] by {
        if k < 2 * s.len() {
            assert(k / 2 < s.len()) by (nonlinear_arith)
                requires
                    0 <= k < 2 * s.len(),
            ;
        } else {
            assert(k / 2 == s.len()) by (nonlinear_arith)
                requires
                    2 * s.len() <= k < 2 * s.len() + 2,
            ;
            assert((k - 2 * s.len()) / 2 == 0);
            assert((k - 2 * s.len()) % 2 == k % 2);
        }
    }
}

/// Lowercase hex encoding of a byte slice, two digits per byte.
pub fn to_hex_string(bytes: &[u8]) -> (r: String)
    ensures
        r@ == hex_encode(bytes@),
{
    let mut s = String::new();
    let n = bytes.len();
    let mut i: usize = 0;
    while i < n
        invariant
            n == bytes@.len(),
            i <= n,
            s@ == hex_encode(bytes@.subrange(0, i as int)),
        decreases n - i,
    {
        proof {
            lemma_hex_encode_push(bytes@.subrange(0, i as int), bytes@[i as int]);
            assert(bytes@.subrange(0, i as int).push(bytes@[i as int]) =~= bytes@.subrange(
                0,
                i + 1,
            ));
        }
        push_hex_byte(&mut s, bytes[i]);
        i = i + 1;
    }
    assert(bytes@.subrange(0, n as int) =~= bytes@);
    s
}

/// Every character of a hex encoding is an ASCII lowercase hex digit.
pub proof fn lemma_hex_encode_ascii(s: Seq<u8>)
    ensures
        is_ascii_chars(hex_encode(s)),
        hex_encode(s).len() == 2 * s.len(),
{
    assert forall|k: int| 0 <= k < hex_encode(s).len() implies '\0' <= #[trigger] hex_encode(
        s,
    )[k] <= '\u{7f}' by {
        assert(0 <= k / 2 < s.len()) by (nonlinear_arith)
            requires
                0 <= k < 2 * s.len(),
        ;
    }
}

/// The bytes of the two digits of an encoded byte read back as that byte.
pub proof fn lemma_hex_pair_roundtrip(b: u8)
    ensures
        hex_byte_value(hex_digit((b / 16) as int) as u8) == Some(b / 16),
        hex_byte_value(hex_digit((b % 16) as int) as u8) == Some(b % 16),
        (b / 16) * 16 + b % 16 == b,
{
}

} // verus!
