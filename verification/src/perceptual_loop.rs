//! Outcomes of the perceptual optimisation loop, and the reading of its
//! hex color targets.
use vstd::prelude::*;
use vstd::string::*;

use crate::hex::{hex_pair_ok, hex_pair_value, hex_pairs_ok, read_hex_pair};

verus! {

/// Convergence status
#[derive(Debug, Clone, Copy, PartialEq)]
pub enum ConvergenceStatus {
    /// Converged to target ΔE
    Converged,
    /// Reached maximum iterations
    MaxIterations,
    /// Gradient too small (stuck)
    GradientTooSmall,
    /// Still running
    InProgress,
}

/// The bytes left once leading `#` bytes are removed (`#` is one byte in
/// UTF-8, and that byte encodes nothing else).
pub open spec fn strip_hashes(b: Seq<u8>) -> Seq<u8>
    decreases b.len(),
{
    if b.len() > 0 && b[0] == 0x23 {
        strip_hashes(b.drop_first())
    } else {
        b
    }
}

/// The red, green and blue bytes of a `#rrggbb` color (any number of
/// leading `#`): six hex digits, either case, two per channel.
pub open spec fn spec_rgb_from_hex(b: Seq<u8>) -> Option<Seq<u8>> {
    let t = strip_hashes(b);
    if t.len() == 6 && hex_pairs_ok(t, 3) {
        Some(seq![hex_pair_value(t, 0), hex_pair_value(t, 1), hex_pair_value(t, 2)])
    } else {
        None
    }
}

/// Parse a hex color such as `#ff8000` into its red, green and blue bytes
/// (a perceptual target's color is each byte over 255). `None` when the
/// text without its leading `#`s is not six hex digits.
pub fn rgb_from_hex(hex: &str) -> (r: Option<[u8; 3]>)
    ensures
        match r {
            Some(a) => spec_rgb_from_hex(hex.spec_bytes()) == Some(a@),
            None => spec_rgb_from_hex(hex.spec_bytes()) is None,
        },
{
    let bytes = hex.as_bytes();
    let ghost b = hex.spec_bytes();
    let n = bytes.len();
    let mut start: usize = 0;
    assert(b.skip(0) =~= b);
    while start < n && bytes[start] == 0x23u8
        invariant
            b == hex.spec_bytes(),
            bytes@ == b,
            n == b.len(),
            start <= n,
            strip_hashes(b.skip(start as int)) == strip_hashes(b),
        decreases n - start,
    {
        assert(b.skip(start as int).drop_first() =~= b.skip(start + 1));
        start = start + 1;
    }
    let ghost t = b.skip(start as int);
    assert(strip_hashes(t) == t);
    if n - start != 6 {
        return None;
    }
    let mut out = [0u8; 3];
    let mut i: usize = 0;
    while i < 3
        invariant
            b == hex.spec_bytes(),
            bytes@ == b,
            n == b.len(),
            t == b.skip(start as int),
            t.len() == 6,
            start + 6 == n,
            t == strip_hashes(b),
            i <= 3,
            hex_pairs_ok(t, i as int),
            forall|j: int| 0 <= j < i ==> out@[j] == hex_pair_value(t, j),
        decreases 3 - i,
    {
        let hi = bytes[start + 2 * i];
        let lo = bytes[start + 2 * i + 1];
        assert(hi == t[2 * i] && lo == t[2 * i + 1]);
        match read_hex_pair(hi, lo) {
            Some(v) => {
                out[i] = v;
            },
            None => {
                assert(!hex_pairs_ok(t, 3)) by {
                    if hex_pairs_ok(t, 3) {
                        assert(hex_pair_ok(t, i as int));
                    }
                }
                return None;
            },
        }
        proof {
            assert(hex_pair_ok(t, i as int));
            assert forall|j: int| 0 <= j < i + 1 implies #[trigger] hex_pair_ok(t, j) by {
                if j < i {
                    assert(hex_pair_ok(t, j));
                }
            }
        }
        i = i + 1;
    }
    assert(out@ =~= seq![hex_pair_value(t, 0), hex_pair_value(t, 1), hex_pair_value(t, 2)]);
    Some(out)
}

} // verus!
