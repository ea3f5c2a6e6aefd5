//! Bit-exact and ULP-tolerant comparison of `f64` values, done on their
//! IEEE-754 bit patterns (as `f64::to_bits` gives them).
use vstd::prelude::*;

verus! {

/// The sign bit of a pattern.
pub open spec fn sign_bit(x: u64) -> u64 {
    x >> 63u64
}

/// The pattern is a NaN: all exponent bits set and a nonzero fraction.
pub open spec fn is_nan_bits(x: u64) -> bool {
    x & 0x7ff0_0000_0000_0000u64 == 0x7ff0_0000_0000_0000u64 && x & 0x000f_ffff_ffff_ffffu64 != 0
}

/// The pattern is `+0.0` or `-0.0`, the values equal to `0.0`.
pub open spec fn is_zero_bits(x: u64) -> bool {
    x & 0x7fff_ffff_ffff_ffffu64 == 0
}

/// Distance between two patterns, in units in the last place.
pub open spec fn ulp_distance(x: u64, y: u64) -> int {
    if x > y {
        x - y
    } else {
        y - x
    }
}

/// Two values agree within `tol` ULPs: both NaN; or of different signs and
/// both zero; or of the same sign and at most `tol` patterns apart.
pub open spec fn near_exact_pair(x: u64, y: u64, tol: u64) -> bool {
    if is_nan_bits(x) && is_nan_bits(y) {
        true
    } else if sign_bit(x) != sign_bit(y) {
        is_zero_bits(x) && is_zero_bits(y)
    } else {
        ulp_distance(x, y) <= tol
    }
}

/// Two arrays agree value by value within `tol` ULPs.
pub open spec fn near_exact(a: Seq<u64>, b: Seq<u64>, tol: u64) -> bool {
    a.len() == b.len() && forall|i: int| 0 <= i < a.len() ==> near_exact_pair(#[trigger] a[i], b[i], tol)
}

/// Number of set bits.
pub open spec fn popcount(x: u64) -> nat
    decreases x,
{
    if x == 0 {
        0
    } else {
        (x % 2) as nat + popcount(x / 2)
    }
}

/// Verify bit-exact equality of two arrays of `f64` bit patterns.
pub fn verify_bit_exact(a: &[u64], b: &[u64]) -> (r: bool)
    ensures
        r == (a@ == b@),
{
    if a.len() != b.len() {
        return false;
    }
    let mut i: usize = 0;
    while i < a.len()
        invariant
            i <= a@.len(),
            a@.len() == b@.len(),
            forall|j: int| 0 <= j < i ==> a@[j] == b@[j],
        decreases a@.len() - i,
    {
        if a[i] != b[i] {
            return false;
        }
        i = i + 1;
    }
    assert(a@ =~= b@);
    true
}

fn is_nan_exec(x: u64) -> (r: bool)
    ensures
        r == is_nan_bits(x),
{
    x & 0x7ff0_0000_0000_0000u64 == 0x7ff0_0000_0000_0000u64 && x & 0x000f_ffff_ffff_ffffu64 != 0
}

fn is_zero_exec(x: u64) -> (r: bool)
    ensures
        r == is_zero_bits(x),
{
    x & 0x7fff_ffff_ffff_ffffu64 == 0
}

/// Verify equality within `ulp_tolerance` units in the last place, of two
/// arrays of `f64` bit patterns. Two NaNs agree, and so do `+0.0` and
/// `-0.0`; other values of different signs never agree.
pub fn verify_near_exact(a: &[u64], b: &[u64], ulp_tolerance: u64) -> (r: bool)
    ensures
        r == near_exact(a@, b@, ulp_tolerance),
{
    if a.len() != b.len() {
        return false;
    }
    let mut i: usize = 0;
    while i < a.len()
        invariant
            i <= a@.len(),
            a@.len() == b@.len(),
            forall|j: int| 0 <= j < i ==> near_exact_pair(#[trigger] a@[j], b@[j], ulp_tolerance),
        decreases a@.len() - i,
    {
        let bits_a = a[i];
        let bits_b = b[i];
        if is_nan_exec(bits_a) && is_nan_exec(bits_b) {
            i = i + 1;
            continue;
        }
        if (bits_a >> 63u64) != (bits_b >> 63u64) {
            if !is_zero_exec(bits_a) || !is_zero_exec(bits_b) {
                return false;
            }
            i = i + 1;
            continue;
        }
        let ulp_diff = if bits_a > bits_b {
            bits_a - bits_b
        } else {
            bits_b - bits_a
        };
        if ulp_diff > ulp_tolerance {
            return false;
        }
        i = i + 1;
    }
    true
}

/// Number of set bits of `x` (what `u64::count_ones` returns).
pub fn count_ones(x: u64) -> (r: u32)
    ensures
        r == popcount(x),
        r <= 64,
{
    let mut v = x;
    let mut n: u32 = 0;
    let mut k: u32 = 0;
    assert(x >> 0u64 == x) by (bit_vector);
    while v != 0
        invariant
            n + popcount(v) == popcount(x),
            k <= 64,
            n <= k,
            v == x >> (k as u64),
        decreases v,
    {
        assert(v >> 1u64 == v / 2) by (bit_vector);
        assert(v & 1u64 == v % 2) by (bit_vector);
        assert(v != 0 && v == x >> (k as u64) ==> k < 64) by (bit_vector)
            requires
                k <= 64,
        ;
        assert((x >> (k as u64)) >> 1u64 == x >> ((k + 1) as u64)) by (bit_vector)
            requires
                k < 64,
        ;
        n = n + (v & 1u64) as u32;
        v = v >> 1u64;
        k = k + 1;
    }
    n
}

/// Count bit differences between two `f64` bit patterns.
pub fn bit_difference(a: u64, b: u64) -> (r: u32)
    ensures
        r == popcount(a ^ b),
{
    count_ones(a ^ b)
}

/// Bit-exact agreement implies agreement within any tolerance; in
/// particular every array agrees with itself, whatever the tolerance.
pub proof fn lemma_bit_exact_implies_near_exact(a: Seq<u64>, b: Seq<u64>, tol: u64)
    requires
        a == b,
    ensures
        near_exact(a, b, tol),
{
    assert forall|i: int| 0 <= i < a.len() implies near_exact_pair(#[trigger] a[i], b[i], tol) by {
        assert(ulp_distance(a[i], b[i]) == 0);
    }
}

/// Agreement within a tolerance is symmetric and is kept when the
/// tolerance grows.
pub proof fn lemma_near_exact_symmetric_monotone(a: Seq<u64>, b: Seq<u64>, tol: u64, wider: u64)
    requires
        near_exact(a, b, tol),
        tol <= wider,
    ensures
        near_exact(b, a, tol),
        near_exact(a, b, wider),
{
    assert forall|i: int| 0 <= i < b.len() implies near_exact_pair(#[trigger] b[i], a[i], tol) by {
        assert(near_exact_pair(a[i], b[i], tol));
    }
    assert forall|i: int| 0 <= i < a.len() implies near_exact_pair(#[trigger] a[i], b[i], wider) by {
        assert(near_exact_pair(a[i], b[i], tol));
    }
}

/// A pattern differs from itself in no bit, and the count of differing
/// bits does not depend on the order of the arguments.
pub proof fn lemma_bit_difference_laws(a: u64, b: u64)
    ensures
        popcount(a ^ a) == 0,
        popcount(a ^ b) == popcount(b ^ a),
{
    assert(a ^ a == 0u64) by (bit_vector);
    assert(a ^ b == b ^ a) by (bit_vector);
}

} // verus!
