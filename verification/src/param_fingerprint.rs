//! Fingerprints of material parameters. Parameters are `f64` values, given
//! here as their IEEE-754 bit patterns (as `f64::to_bits` gives them): the
//! hash reads each value's eight big-endian bytes, which are exactly the
//! bytes of its bit pattern.
use vstd::prelude::*;
use vstd::string::*;

use crate::fingerprint_hash::{be_bytes, deterministic_hash, spec_deterministic_hash};
use crate::material_fingerprint::{is_engine_fingerprint, MaterialFingerprint};

verus! {

/// The canonical bytes of a parameter array: each value's eight big-endian
/// bytes, in order.
pub open spec fn params_bytes(ps: Seq<u64>) -> Seq<u8>
    decreases ps.len(),
{
    if ps.len() == 0 {
        Seq::empty()
    } else {
        params_bytes(ps.drop_last()) + be_bytes(ps.last())
    }
}

/// The canonical bytes of a parameter array hold every value, in order:
/// eight big-endian bytes per value, value `i` at bytes `8i..8i+8`.
pub proof fn lemma_params_bytes_layout(ps: Seq<u64>)
    ensures
        params_bytes(ps).len() == 8 * ps.len(),
        forall|i: int|
            0 <= i < ps.len() ==> #[trigger] params_bytes(ps).subrange(8 * i, 8 * i + 8) == be_bytes(
                ps[i],
            ),
    decreases ps.len(),
{
    if ps.len() > 0 {
        let init = ps.drop_last();
        lemma_params_bytes_layout(init);
        let n = init.len();
        assert forall|i: int| 0 <= i < ps.len() implies #[trigger] params_bytes(ps).subrange(
            8 * i,
            8 * i + 8,
        ) == be_bytes(ps[i]) by {
            if i < n {
                assert(params_bytes(ps).subrange(8 * i, 8 * i + 8) =~= params_bytes(init).subrange(
                    8 * i,
                    8 * i + 8,
                ));
                assert(init[i] == ps[i]);
            } else {
                assert(params_bytes(ps).subrange(8 * i, 8 * i + 8) =~= be_bytes(ps.last()));
            }
        }
    }
}

/// A value is determined by its eight big-endian bytes.
pub proof fn lemma_be_bytes_injective(x: u64, y: u64)
    requires
        be_bytes(x) == be_bytes(y),
    ensures
        x == y,
{
    assert(be_bytes(x)[0] == be_bytes(y)[0]);
    assert(be_bytes(x)[1] == be_bytes(y)[1]);
    assert(be_bytes(x)[2] == be_bytes(y)[2]);
    assert(be_bytes(x)[3] == be_bytes(y)[3]);
    assert(be_bytes(x)[4] == be_bytes(y)[4]);
    assert(be_bytes(x)[5] == be_bytes(y)[5]);
    assert(be_bytes(x)[6] == be_bytes(y)[6]);
    assert(be_bytes(x)[7] == be_bytes(y)[7]);
    assert(x == y) by (bit_vector)
        requires
            (x >> 56u64) as u8 == (y >> 56u64) as u8,
            (x >> 48u64) as u8 == (y >> 48u64) as u8,
            (x >> 40u64) as u8 == (y >> 40u64) as u8,
            (x >> 32u64) as u8 == (y >> 32u64) as u8,
            (x >> 24u64) as u8 == (y >> 24u64) as u8,
            (x >> 16u64) as u8 == (y >> 16u64) as u8,
            (x >> 8u64) as u8 == (y >> 8u64) as u8,
            x as u8 == y as u8,
    ;
}

/// Parameter arrays that differ in any value have different canonical
/// bytes: equal bytes mean equal arrays.
pub proof fn lemma_params_bytes_injective(ps: Seq<u64>, qs: Seq<u64>)
    requires
        params_bytes(ps) == params_bytes(qs),
    ensures
        ps == qs,
{
    lemma_params_bytes_layout(ps);
    lemma_params_bytes_layout(qs);
    assert forall|i: int| 0 <= i < ps.len() implies ps[i] == qs[i] by {
        assert(params_bytes(ps).subrange(8 * i, 8 * i + 8) == be_bytes(ps[i]));
        assert(params_bytes(qs).subrange(8 * i, 8 * i + 8) == be_bytes(qs[i]));
        lemma_be_bytes_injective(ps[i], qs[i]);
    }
    assert(ps =~= qs);
}

/// The hash of a parameter array.
pub open spec fn params_hash(ps: Seq<u64>) -> Seq<u8> {
    spec_deterministic_hash(params_bytes(ps))
}

/// Appends the eight big-endian bytes of `x`.
pub fn push_be_bytes(v: &mut Vec<u8>, x: u64)
    ensures
        final(v)@ == old(v)@ + be_bytes(x),
{
    v.push((x >> 56u64) as u8);
    v.push((x >> 48u64) as u8);
    v.push((x >> 40u64) as u8);
    v.push((x >> 32u64) as u8);
    v.push((x >> 24u64) as u8);
    v.push((x >> 16u64) as u8);
    v.push((x >> 8u64) as u8);
    v.push(x as u8);
    assert(v@ =~= old(v)@ + be_bytes(x));
}

/// The canonical bytes of a parameter array.
pub fn params_to_bytes(data: &[u64]) -> (r: Vec<u8>)
    ensures
        r@ == params_bytes(data@),
{
    let mut bytes: Vec<u8> = Vec::new();
    let mut i: usize = 0;
    assert(data@.subrange(0, 0) =~= Seq::<u64>::empty());
    while i < data.len()
        invariant
            i <= data@.len(),
            bytes@ == params_bytes(data@.subrange(0, i as int)),
        decreases data@.len() - i,
    {
        push_be_bytes(&mut bytes, data[i]);
        proof {
            let pre = data@.subrange(0, i + 1);
            assert(pre.drop_last() =~= data@.subrange(0, i as int));
            assert(pre.last() == data@[i as int]);
        }
        i = i + 1;
    }
    assert(data@.subrange(0, data@.len() as int) =~= data@);
    bytes
}

/// Deterministic hash of an `f64` array (platform-independent), the values
/// given as bit patterns.
pub fn deterministic_hash_f64(data: &[u64]) -> (r: [u8; 32])
    ensures
        r@ == params_hash(data@),
{
    let bytes = params_to_bytes(data);
    deterministic_hash(bytes.as_slice())
}

impl MaterialFingerprint {
    /// Create fingerprint from `f64` parameters (as bit patterns).
    pub fn from_params(params: &[u64]) -> (r: Self)
        ensures
            is_engine_fingerprint(r, params_hash(params@)),
            r.timestamp is Some,
    {
        let hash = deterministic_hash_f64(params);
        MaterialFingerprint::new(hash)
    }

    /// Verify that this fingerprint matches given parameters.
    pub fn verify(&self, params: &[u64]) -> (r: bool)
        ensures
            r == (self.hash@ == params_hash(params@)),
    {
        let computed = deterministic_hash_f64(params);
        crate::material_fingerprint::hash_eq(&self.hash, &computed)
    }
}

/// Create fingerprint from `f64` parameters (as bit patterns).
pub fn fingerprint_from_params(params: &[u64]) -> (r: MaterialFingerprint)
    ensures
        is_engine_fingerprint(r, params_hash(params@)),
        r.timestamp is Some,
{
    MaterialFingerprint::from_params(params)
}

/// A fingerprint made from parameters verifies against the same
/// parameters, and against any array with the same bytes.
pub proof fn lemma_fingerprint_verifies_own_params(fp: MaterialFingerprint, ps: Seq<u64>)
    requires
        is_engine_fingerprint(fp, params_hash(ps)),
    ensures
        fp.hash@ == params_hash(ps),
{
}

} // verus!
