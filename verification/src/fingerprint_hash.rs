//! Deterministic 256-bit content hash: an FNV-1a variant run on four
//! 64-bit lanes with periodic cross-lane mixing and a final avalanche step.
use vstd::prelude::*;

verus! {

/// FNV-1a 64-bit prime.
pub const FNV_PRIME: u64 = 0x100000001b3;

/// Offset basis of lane 0.
pub const FNV_OFFSET_0: u64 = 0xcbf29ce484222325;

/// Offset basis of lane 1.
pub const FNV_OFFSET_1: u64 = 0x84222325cbf29ce4;

/// Offset basis of lane 2.
pub const FNV_OFFSET_2: u64 = 0x22325cbf29ce4842;

/// Offset basis of lane 3.
pub const FNV_OFFSET_3: u64 = 0x25cbf29ce4842232;

/// Multiplier of the final avalanche step.
pub const AVALANCHE_MUL: u64 = 0xff51afd7ed558ccd;

/// The four lanes of the hash state.
pub type Lanes = (u64, u64, u64, u64);

/// Left rotation of a 64-bit word by `k` bits, `0 < k < 64`.
pub open spec fn rotl(x: u64, k: u64) -> u64 {
    (x << k) | (x >> ((64 - k) as u64))
}

/// The value that byte number `i` of the input contributes to lane `j`.
pub open spec fn lane_input(byte: u8, i: nat, j: u8) -> u8 {
    byte.wrapping_add(((i % 256) as u8).wrapping_mul((j + 1) as u8))
}

/// One FNV-1a step of lane `j` on byte number `i`.
pub open spec fn mix_lane(s: u64, byte: u8, i: nat, j: u8) -> u64 {
    (s ^ (lane_input(byte, i, j) as u64)).wrapping_mul(FNV_PRIME)
}

/// The state after absorbing byte number `i`: every lane takes one FNV
/// step, and after every eighth byte the lanes are cross-mixed.
pub open spec fn absorb_byte(st: Lanes, byte: u8, i: nat) -> Lanes {
    let a = mix_lane(st.0, byte, i, 0);
    let b = mix_lane(st.1, byte, i, 1);
    let c = mix_lane(st.2, byte, i, 2);
    let d = mix_lane(st.3, byte, i, 3);
    if i % 8 == 7 {
        (a ^ rotl(b, 13), b ^ rotl(c, 17), c ^ rotl(d, 19), d ^ rotl(a, 23))
    } else {
        (a, b, c, d)
    }
}

/// The state after absorbing all of `data`, starting from the offset bases.
pub open spec fn absorb(data: Seq<u8>) -> Lanes
    decreases data.len(),
{
    if data.len() == 0 {
        (FNV_OFFSET_0, FNV_OFFSET_1, FNV_OFFSET_2, FNV_OFFSET_3)
    } else {
        absorb_byte(absorb(data.drop_last()), data.last(), (data.len() - 1) as nat)
    }
}

/// Final avalanche of one lane.
pub open spec fn avalanche(x: u64) -> u64 {
    let a = x ^ (x >> 33u64);
    let b = a.wrapping_mul(AVALANCHE_MUL);
    b ^ (b >> 33u64)
}

/// Big-endian bytes of a 64-bit word.
pub open spec fn be_bytes(x: u64) -> Seq<u8> {
    seq![
        (x >> 56u64) as u8,
        (x >> 48u64) as u8,
        (x >> 40u64) as u8,
        (x >> 32u64) as u8,
        (x >> 24u64) as u8,
        (x >> 16u64) as u8,
        (x >> 8u64) as u8,
        x as u8,
    ]
}

/// The 32-byte hash of `data`: the four avalanched lanes, big-endian, in order.
pub open spec fn spec_deterministic_hash(data: Seq<u8>) -> Seq<u8> {
    let st = absorb(data);
    be_bytes(avalanche(st.0)) + be_bytes(avalanche(st.1)) + be_bytes(avalanche(st.2))
        + be_bytes(avalanche(st.3))
}

fn mix_lane_exec(s: u64, byte: u8, i: usize, j: u8) -> (r: u64)
    requires
        j < 4,
    ensures
        r == mix_lane(s, byte, i as nat, j),
{
    let m: u8 = ((i % 256) as u8).wrapping_mul(j + 1);
    let v: u8 = byte.wrapping_add(m);
    (s ^ (v as u64)).wrapping_mul(FNV_PRIME)
}

fn avalanche_exec(x: u64) -> (r: u64)
    ensures
        r == avalanche(x),
{
    let a = x ^ (x >> 33u64);
    let b = a.wrapping_mul(AVALANCHE_MUL);
    b ^ (b >> 33u64)
}

/// Deterministic hash of a byte array (not cryptographic): the result is
/// `spec_deterministic_hash(data)`, a function of the bytes alone.
pub fn deterministic_hash(data: &[u8]) -> (r: [u8; 32])
    ensures
        r@ == spec_deterministic_hash(data@),
{
    let mut s0: u64 = FNV_OFFSET_0;
    let mut s1: u64 = FNV_OFFSET_1;
    let mut s2: u64 = FNV_OFFSET_2;
    let mut s3: u64 = FNV_OFFSET_3;
    let n = data.len();
    let mut i: usize = 0;
    assert(data@.subrange(0, 0) =~= Seq::<u8>::empty());
    while i < n
        invariant
            n == data@.len(),
            i <= n,
            (s0, s1, s2, s3) == absorb(data@.subrange(0, i as int)),
        decreases n - i,
    {
        let byte = data[i];
        let a = mix_lane_exec(s0, byte, i, 0);
        let b = mix_lane_exec(s1, byte, i, 1);
        let c = mix_lane_exec(s2, byte, i, 2);
        let d = mix_lane_exec(s3, byte, i, 3);
        if i % 8 == 7 {
            s0 = a ^ ((b << 13u64) | (b >> 51u64));
            s1 = b ^ ((c << 17u64) | (c >> 47u64));
            s2 = c ^ ((d << 19u64) | (d >> 45u64));
            s3 = d ^ ((a << 23u64) | (a >> 41u64));
        } else {
            s0 = a;
            s1 = b;
            s2 = c;
            s3 = d;
        }
        proof {
            let pre = data@.subrange(0, (i + 1) as int);
            assert(pre.drop_last() =~= data@.subrange(0, i as int));
            assert(pre.last() == data@[i as int]);
        }
        i = i + 1;
    }
    assert(data@.subrange(0, n as int) =~= data@);
    let w0 = avalanche_exec(s0);
    let w1 = avalanche_exec(s1);
    let w2 = avalanche_exec(s2);
    let w3 = avalanche_exec(s3);
    let r: [u8; 32] = [
        (w0 >> 56u64) as u8, (w0 >> 48u64) as u8, (w0 >> 40u64) as u8, (w0 >> 32u64) as u8,
        (w0 >> 24u64) as u8, (w0 >> 16u64) as u8, (w0 >> 8u64) as u8, w0 as u8,
        (w1 >> 56u64) as u8, (w1 >> 48u64) as u8, (w1 >> 40u64) as u8, (w1 >> 32u64) as u8,
        (w1 >> 24u64) as u8, (w1 >> 16u64) as u8, (w1 >> 8u64) as u8, w1 as u8,
        (w2 >> 56u64) as u8, (w2 >> 48u64) as u8, (w2 >> 40u64) as u8, (w2 >> 32u64) as u8,
        (w2 >> 24u64) as u8, (w2 >> 16u64) as u8, (w2 >> 8u64) as u8, w2 as u8,
        (w3 >> 56u64) as u8, (w3 >> 48u64) as u8, (w3 >> 40u64) as u8, (w3 >> 32u64) as u8,
        (w3 >> 24u64) as u8, (w3 >> 16u64) as u8, (w3 >> 8u64) as u8, w3 as u8,
    ];
    assert(r@ =~= spec_deterministic_hash(data@));
    r
}

} // verus!
