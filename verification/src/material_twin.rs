//! Digital material twin identity: UUID-style twin identifiers, calibration
//! quality levels, twin variants and tag lists.
use vstd::prelude::*;

use crate::decimal::{decimal, push_decimal};
use crate::hex::{hex_encode, lemma_hex_encode_push, push_char, push_hex_byte};
use crate::fingerprint_hash::{FNV_OFFSET_0, FNV_PRIME};
use crate::material_fingerprint::current_timestamp;
use crate::param_fingerprint::{params_bytes, params_to_bytes};
use crate::metrology::traceability::string_views;
use crate::text_scan::{chars_eq, chars_vec};

verus! {

/// Multiplier of the byte generator (Knuth's MMIX LCG).
pub const TWIN_LCG_MUL: u64 = 6364136223846793005;

/// Unique identifier for a material twin (UUID v4 format).
#[derive(Debug, Clone, Copy, PartialEq, Eq, Hash)]
pub struct TwinId([u8; 16]);

/// The generator state after `k` steps from `seed`.
pub open spec fn lcg_state(seed: u64, k: nat) -> u64
    decreases k,
{
    if k == 0 {
        seed
    } else {
        lcg_state(seed, (k - 1) as nat).wrapping_mul(TWIN_LCG_MUL).wrapping_add(1)
    }
}

/// Byte `i` of the identifier before the version and variant bits are set.
pub open spec fn raw_id_byte(seed: u64, i: int) -> u8 {
    (lcg_state(seed, (i + 1) as nat) >> 32u64) as u8
}

/// The identifier bytes drawn from `seed`, with the UUID version (4) in
/// byte 6 and the RFC 4122 variant in byte 8.
pub open spec fn twin_id_bytes(seed: u64) -> Seq<u8> {
    Seq::new(
        16,
        |i: int|
            if i == 6 {
                (raw_id_byte(seed, 6) & 0x0f) | 0x40
            } else if i == 8 {
                (raw_id_byte(seed, 8) & 0x3f) | 0x80
            } else {
                raw_id_byte(seed, i)
            },
    )
}

/// The bytes are those of a version-4, RFC 4122 variant UUID.
pub open spec fn is_uuid_v4(b: Seq<u8>) -> bool {
    &&& b.len() == 16
    &&& b[6] & 0xf0 == 0x40
    &&& b[8] & 0xc0 == 0x80
}

/// A new randomly keyed hasher state, from `RandomState::new`.
#[verifier::external_body]
pub(crate) fn new_random_state() -> std::collections::hash_map::RandomState {
    std::collections::hash_map::RandomState::new()
}

/// The hash of `0u64` under the state `s`, from `BuildHasher::hash_one`;
/// nothing is promised of the value, as the keys are random.
#[verifier::external_body]
pub(crate) fn hash_zero(s: &std::collections::hash_map::RandomState) -> u64 {
    std::hash::BuildHasher::hash_one(s, 0u64)
}

impl TwinId {
    /// The identifier's bytes.
    pub closed spec fn spec_bytes(&self) -> Seq<u8> {
        self.0@
    }

    /// An identifier has sixteen bytes.
    pub proof fn lemma_len(&self)
        ensures
            self.spec_bytes().len() == 16,
    {
    }

    /// The identifier whose bytes are drawn from `seed`.
    pub fn from_seed(seed: u64) -> (r: Self)
        ensures
            r.spec_bytes() == twin_id_bytes(seed),
            is_uuid_v4(r.spec_bytes()),
    {
        let mut bytes = [0u8; 16];
        let mut state = seed;
        let mut i: usize = 0;
        while i < 16
            invariant
                i <= 16,
                state == lcg_state(seed, i as nat),
                forall|j: int| 0 <= j < i ==> bytes@[j] == raw_id_byte(seed, j),
            decreases 16 - i,
        {
            state = state.wrapping_mul(TWIN_LCG_MUL).wrapping_add(1);
            bytes[i] = (state >> 32u64) as u8;
            i = i + 1;
        }
        bytes[6] = (bytes[6] & 0x0f) | 0x40;
        bytes[8] = (bytes[8] & 0x3f) | 0x80;
        let r = TwinId(bytes);
        assert(r.spec_bytes() =~= twin_id_bytes(seed));
        let ghost b6: u8 = raw_id_byte(seed, 6int);
        let ghost b8: u8 = raw_id_byte(seed, 8int);
        assert(((b6 & 0x0f) | 0x40) & 0xf0 == 0x40) by (bit_vector);
        assert(((b8 & 0x3f) | 0x80) & 0xc0 == 0x80) by (bit_vector);
        r
    }

    /// Generate a new identifier, seeded from the current time (nanoseconds)
    /// plus a per-call random value, so that two calls in the same
    /// nanosecond almost surely differ (uniqueness is likely, not certain).
    pub fn generate() -> (r: Self)
        ensures
            exists|seed: u64| r.spec_bytes() == twin_id_bytes(seed),
            is_uuid_v4(r.spec_bytes()),
    {
        let timestamp = current_timestamp();
        let state = new_random_state();
        let salt = hash_zero(&state);
        let r = Self::from_seed(timestamp.wrapping_add(salt));
        r
    }

    /// Generate a new identifier from the current time (nanoseconds) plus
    /// `counter`, a count that the caller raises by one per call so that
    /// identifiers made in rapid succession still differ.
    pub fn generate_with_counter(counter: u64) -> (r: Self)
        ensures
            exists|now: u64| r.spec_bytes() == twin_id_bytes(now.wrapping_add(counter)),
            is_uuid_v4(r.spec_bytes()),
    {
        let timestamp = current_timestamp();
        let r = Self::from_seed(timestamp.wrapping_add(counter));
        assert(r.spec_bytes() == twin_id_bytes(timestamp.wrapping_add(counter)));
        r
    }

    /// Create TwinId from bytes.
    pub fn from_bytes(bytes: [u8; 16]) -> (r: Self)
        ensures
            r.spec_bytes() == bytes@,
    {
        TwinId(bytes)
    }

    /// Get raw bytes.
    pub fn as_bytes(&self) -> (r: &[u8; 16])
        ensures
            r@ == self.spec_bytes(),
    {
        &self.0
    }

    /// Format as UUID string: 8-4-4-4-12 lowercase hex digits.
    pub fn to_uuid_string(&self) -> (r: String)
        ensures
            r@ == uuid_text(self.spec_bytes()),
            r@.len() == 36,
    {
        let b = &self.0;
        let mut s = String::new();
        let mut i: usize = 0;
        while i < 16
            invariant
                i <= 16,
                s@ == uuid_prefix(b@, i as int),
            decreases 16 - i,
        {
            if i == 4 || i == 6 || i == 8 || i == 10 {
                push_char(&mut s, '-');
            }
            push_hex_byte(&mut s, b[i]);
            proof {
                lemma_hex_encode_push(b@.subrange(uuid_group_start(i as int), i as int), b@[i as int]);
                assert(b@.subrange(uuid_group_start(i as int), i as int).push(b@[i as int])
                    =~= b@.subrange(uuid_group_start(i as int), i + 1));
                assert(b@.subrange(i as int, i as int) =~= Seq::<u8>::empty());
                assert(hex_encode(Seq::<u8>::empty()) =~= Seq::<char>::empty());
            }
            i = i + 1;
        }
        assert(uuid_prefix(b@, 16) =~= uuid_text(b@));
        s
    }

    /// Get short form (first 8 hex chars).
    pub fn short(&self) -> (r: String)
        ensures
            r@ == hex_encode(self.spec_bytes().subrange(0, 4)),
            r@.len() == 8,
    {
        let mut s = String::new();
        let mut i: usize = 0;
        while i < 4
            invariant
                i <= 4,
                s@ == hex_encode(self.0@.subrange(0, i as int)),
            decreases 4 - i,
        {
            push_hex_byte(&mut s, self.0[i]);
            proof {
                lemma_hex_encode_push(self.0@.subrange(0, i as int), self.0@[i as int]);
                assert(self.0@.subrange(0, i as int).push(self.0@[i as int]) =~= self.0@.subrange(
                    0,
                    i + 1,
                ));
            }
            i = i + 1;
        }
        s
    }
}

/// Index of the first byte of the UUID group that holds byte `i`.
pub open spec fn uuid_group_start(i: int) -> int {
    if i < 4 {
        0
    } else if i < 6 {
        4
    } else if i < 8 {
        6
    } else if i < 10 {
        8
    } else {
        10
    }
}

/// The UUID text of the first `i` bytes: complete groups joined by `-`,
/// then the digits of the group in progress.
pub open spec fn uuid_prefix(b: Seq<u8>, i: int) -> Seq<char> {
    if i <= 4 {
        hex_encode(b.subrange(0, i))
    } else if i <= 6 {
        hex_encode(b.subrange(0, 4)) + seq!['-'] + hex_encode(b.subrange(4, i))
    } else if i <= 8 {
        hex_encode(b.subrange(0, 4)) + seq!['-'] + hex_encode(b.subrange(4, 6)) + seq!['-']
            + hex_encode(b.subrange(6, i))
    } else if i <= 10 {
        hex_encode(b.subrange(0, 4)) + seq!['-'] + hex_encode(b.subrange(4, 6)) + seq!['-']
            + hex_encode(b.subrange(6, 8)) + seq!['-'] + hex_encode(b.subrange(8, i))
    } else {
        hex_encode(b.subrange(0, 4)) + seq!['-'] + hex_encode(b.subrange(4, 6)) + seq!['-']
            + hex_encode(b.subrange(6, 8)) + seq!['-'] + hex_encode(b.subrange(8, 10)) + seq!['-']
            + hex_encode(b.subrange(10, i))
    }
}

/// The UUID text of 16 bytes: groups of 4, 2, 2, 2 and 6 bytes in lowercase
/// hex, joined by `-` (36 characters).
pub open spec fn uuid_text(b: Seq<u8>) -> Seq<char> {
    hex_encode(b.subrange(0, 4)) + seq!['-'] + hex_encode(b.subrange(4, 6)) + seq!['-']
        + hex_encode(b.subrange(6, 8)) + seq!['-'] + hex_encode(b.subrange(8, 10)) + seq!['-']
        + hex_encode(b.subrange(10, 16))
}

/// FNV-1a state after absorbing `bytes`.
pub open spec fn spectral_state(bytes: Seq<u8>) -> u64
    decreases bytes.len(),
{
    if bytes.len() == 0 {
        FNV_OFFSET_0
    } else {
        (spectral_state(bytes.drop_last()) ^ (bytes.last() as u64)).wrapping_mul(FNV_PRIME)
    }
}

/// The 16-byte spectral hash of `bytes`: after every eighth byte, the high
/// half of the state is folded (xor) into byte `(i / 8) % 16`, where `i` is
/// the index of that byte.
pub open spec fn spectral_hash_bytes(bytes: Seq<u8>) -> Seq<u8>
    decreases bytes.len(),
{
    if bytes.len() == 0 {
        Seq::new(16, |k: int| 0u8)
    } else {
        let prev = spectral_hash_bytes(bytes.drop_last());
        let i = bytes.len() - 1;
        if i % 8 == 7 {
            let idx = (i / 8) % 16;
            prev.update(idx, prev[idx] ^ ((spectral_state(bytes) >> 32u64) as u8))
        } else {
            prev
        }
    }
}

proof fn lemma_spectral_hash_len(bytes: Seq<u8>)
    ensures
        spectral_hash_bytes(bytes).len() == 16,
    decreases bytes.len(),
{
    if bytes.len() > 0 {
        lemma_spectral_hash_len(bytes.drop_last());
    }
}

/// Spectral identity hash of sampled reflectances (`f64` bit patterns, the
/// samples of each angle in order): FNV-1a over their big-endian bytes,
/// folded into 128 bits.
pub fn compute_spectral_hash(samples: &[u64]) -> (r: [u8; 16])
    ensures
        r@ == spectral_hash_bytes(params_bytes(samples@)),
{
    let bytes = params_to_bytes(samples);
    let mut hash = [0u8; 16];
    let mut state: u64 = FNV_OFFSET_0;
    let mut i: usize = 0;
    proof {
        assert(bytes@.subrange(0, 0) =~= Seq::<u8>::empty());
        assert(hash@ =~= spectral_hash_bytes(Seq::<u8>::empty()));
    }
    while i < bytes.len()
        invariant
            i <= bytes@.len(),
            state == spectral_state(bytes@.subrange(0, i as int)),
            hash@ == spectral_hash_bytes(bytes@.subrange(0, i as int)),
        decreases bytes@.len() - i,
    {
        let byte = bytes[i];
        state = (state ^ (byte as u64)).wrapping_mul(FNV_PRIME);
        proof {
            let pre = bytes@.subrange(0, i + 1);
            assert(pre.drop_last() =~= bytes@.subrange(0, i as int));
            assert(pre.last() == byte);
            lemma_spectral_hash_len(bytes@.subrange(0, i as int));
        }
        if i % 8 == 7 {
            let idx = (i / 8) % 16;
            hash[idx] = hash[idx] ^ ((state >> 32u64) as u8);
        }
        proof {
            let pre = bytes@.subrange(0, i + 1);
            assert(hash@ =~= spectral_hash_bytes(pre));
        }
        i = i + 1;
    }
    assert(bytes@.subrange(0, bytes@.len() as int) =~= bytes@);
    hash
}

/// The UUID text of 16 bytes is 36 characters long, with dashes at
/// positions 8, 13, 18 and 23 and lowercase hex digits everywhere else.
pub proof fn lemma_uuid_text_shape(b: Seq<u8>)
    requires
        b.len() == 16,
    ensures
        uuid_text(b).len() == 36,
        uuid_text(b)[8] == '-' && uuid_text(b)[13] == '-' && uuid_text(b)[18] == '-'
            && uuid_text(b)[23] == '-',
        forall|k: int|
            0 <= k < 36 && k != 8 && k != 13 && k != 18 && k != 23 ==> ('0' <= #[trigger] uuid_text(
                b,
            )[k] <= '9' || 'a' <= uuid_text(b)[k] <= 'f'),
{
    let t = uuid_text(b);
    assert(t.len() == 36);
    assert forall|k: int|
        0 <= k < 36 && k != 8 && k != 13 && k != 18 && k != 23 implies ('0' <= #[trigger] t[k] <= '9'
        || 'a' <= t[k] <= 'f') by {
        let (start, off) = if k < 8 {
            (0int, k)
        } else if k < 13 {
            (4int, k - 9)
        } else if k < 18 {
            (6int, k - 14)
        } else if k < 23 {
            (8int, k - 19)
        } else {
            (10int, k - 24)
        };
        let byte = b[start + off / 2];
        assert(0 <= byte / 16 < 16 && 0 <= byte % 16 < 16);
    }
}

/// Quality level of calibration.
#[derive(Debug, Clone, Copy, PartialEq, Eq)]
pub enum CalibrationQuality {
    /// No calibration performed.
    Uncalibrated,
    /// Basic calibration with limited data.
    Basic,
    /// Standard calibration with good coverage.
    Standard,
    /// High-quality calibration with comprehensive data.
    High,
    /// Reference-grade calibration with measured BRDF data.
    Reference,
}

/// Numeric score of a calibration quality (0-100).
pub open spec fn quality_score(q: CalibrationQuality) -> u8 {
    match q {
        CalibrationQuality::Uncalibrated => 0,
        CalibrationQuality::Basic => 25,
        CalibrationQuality::Standard => 50,
        CalibrationQuality::High => 75,
        CalibrationQuality::Reference => 100,
    }
}

impl CalibrationQuality {
    /// Get numeric score (0-100).
    pub fn score(&self) -> (r: u8)
        ensures
            r == quality_score(*self),
    {
        match self {
            CalibrationQuality::Uncalibrated => 0,
            CalibrationQuality::Basic => 25,
            CalibrationQuality::Standard => 50,
            CalibrationQuality::High => 75,
            CalibrationQuality::Reference => 100,
        }
    }

    /// Check if calibration meets minimum quality.
    pub fn meets_minimum(&self, minimum: CalibrationQuality) -> (r: bool)
        ensures
            r == (quality_score(*self) >= quality_score(minimum)),
    {
        self.score() >= minimum.score()
    }
}

/// Quality levels are ordered by score: meeting a minimum is reflexive and
/// transitive, and every level meets `Uncalibrated`.
pub proof fn lemma_meets_minimum_order(
    a: CalibrationQuality,
    b: CalibrationQuality,
    c: CalibrationQuality,
)
    ensures
        quality_score(a) >= quality_score(a),
        quality_score(a) >= quality_score(b) && quality_score(b) >= quality_score(c)
            ==> quality_score(a) >= quality_score(c),
        quality_score(a) >= quality_score(CalibrationQuality::Uncalibrated),
        quality_score(a) >= quality_score(b) && quality_score(b) >= quality_score(a) ==> a == b,
{
}

/// No tag occurs twice.
pub open spec fn tags_distinct(tags: Seq<Seq<char>>) -> bool {
    forall|i: int, j: int| 0 <= i < j < tags.len() ==> tags[i] != tags[j]
}

/// The tag `t` equals `tag`.
fn tag_is(t: &String, tag: &Vec<char>) -> (r: bool)
    ensures
        r == (t@ == tag@),
{
    let c = chars_vec(t.as_str());
    chars_eq(&c, tag)
}

/// Whether a twin's tag list holds `tag`.
pub fn has_tag(tags: &Vec<String>, tag: &str) -> (r: bool)
    ensures
        r == string_views(tags@).contains(tag@),
{
    let wanted = chars_vec(tag);
    let mut i: usize = 0;
    while i < tags.len()
        invariant
            i <= tags@.len(),
            wanted@ == tag@,
            forall|j: int| 0 <= j < i ==> tags@[j]@ != tag@,
        decreases tags@.len() - i,
    {
        if tag_is(&tags[i], &wanted) {
            assert(string_views(tags@)[i as int] == tag@);
            return true;
        }
        i = i + 1;
    }
    proof {
        if string_views(tags@).contains(tag@) {
            let k = choose|k: int| 0 <= k < string_views(tags@).len() && string_views(tags@)[k] == tag@;
            assert(tags@[k]@ == tag@);
        }
    }
    false
}

/// Add `tag` to a twin's tag list unless it is already there; says whether
/// it was added (the twin then counts as modified).
pub fn add_tag(tags: &mut Vec<String>, tag: &str) -> (added: bool)
    ensures
        added == !string_views(old(tags)@).contains(tag@),
        added ==> string_views(final(tags)@) == string_views(old(tags)@).push(tag@),
        !added ==> final(tags)@ == old(tags)@,
        string_views(final(tags)@).contains(tag@),
        tags_distinct(string_views(old(tags)@)) ==> tags_distinct(string_views(final(tags)@)),
{
    if has_tag(tags, tag) {
        false
    } else {
        let ghost before = string_views(tags@);
        tags.push(tag.to_owned());
        assert(string_views(tags@) =~= before.push(tag@));
        assert(string_views(tags@)[before.len() as int] == tag@);
        true
    }
}

/// Remove every occurrence of `tag` from a twin's tag list, keeping the
/// order of the others.
pub fn remove_tag(tags: &mut Vec<String>, tag: &str)
    ensures
        string_views(final(tags)@) == string_views(old(tags)@).filter(|t: Seq<char>| t != tag@),
        !string_views(final(tags)@).contains(tag@),
{
    let wanted = chars_vec(tag);
    let ghost pred = |t: Seq<char>| t != tag@;
    let ghost all = string_views(tags@);
    let mut kept: Vec<String> = Vec::new();
    let mut i: usize = 0;
    while i < tags.len()
        invariant
            i <= tags@.len(),
            wanted@ == tag@,
            all == string_views(tags@),
            pred == (|t: Seq<char>| t != tag@),
            string_views(kept@) == all.subrange(0, i as int).filter(pred),
        decreases tags@.len() - i,
    {
        let ghost pre = all.subrange(0, i + 1);
        assert(pre.drop_last() =~= all.subrange(0, i as int));
        reveal(Seq::filter);
        assert(pre.last() == tags@[i as int]@);
        let ghost kv = string_views(kept@);
        if !tag_is(&tags[i], &wanted) {
            kept.push(tags[i].clone());
            assert(string_views(kept@) =~= kv.push(tags@[i as int]@));
        }
        i = i + 1;
    }
    assert(all.subrange(0, tags@.len() as int) =~= all);
    *tags = kept;
    proof {
        let f = all.filter(pred);
        if f.contains(tag@) {
            let k = choose|k: int| 0 <= k < f.len() && f[k] == tag@;
            all.lemma_filter_pred(pred, k);
        }
    }
}

/// Classification of material twin types.
#[derive(Debug, Clone, Copy, PartialEq, Eq)]
pub enum TwinVariant {
    /// Static twin - no temporal evolution.
    Static,
    /// Temporal twin - evolves over time.
    Temporal,
    /// Layered twin - multiple material layers.
    Layered { layer_count: usize },
    /// Measured twin - from real measurement data.
    Measured,
}

impl TwinVariant {
    /// Check if variant is static.
    pub fn is_static(&self) -> (r: bool)
        ensures
            r == (*self is Static),
    {
        match self {
            TwinVariant::Static => true,
            _ => false,
        }
    }

    /// Check if variant is temporal.
    pub fn is_temporal(&self) -> (r: bool)
        ensures
            r == (*self is Temporal),
    {
        match self {
            TwinVariant::Temporal => true,
            _ => false,
        }
    }

    /// Check if variant is layered.
    pub fn is_layered(&self) -> (r: bool)
        ensures
            r == (*self is Layered),
    {
        match self {
            TwinVariant::Layered { .. } => true,
            _ => false,
        }
    }

    /// Check if variant is from measured data.
    pub fn is_measured(&self) -> (r: bool)
        ensures
            r == (*self is Measured),
    {
        match self {
            TwinVariant::Measured => true,
            _ => false,
        }
    }

    /// Get layer count (1 for non-layered).
    pub fn layer_count(&self) -> (r: usize)
        ensures
            r == match *self {
                TwinVariant::Layered { layer_count } => layer_count,
                _ => 1,
            },
    {
        match self {
            TwinVariant::Layered { layer_count } => *layer_count,
            _ => 1,
        }
    }

    /// Get description string.
    pub fn description(&self) -> (r: &'static str)
        ensures
            r@ == match *self {
                TwinVariant::Static => "Static material (no evolution)"@,
                TwinVariant::Temporal => "Temporal material (time-evolving)"@,
                TwinVariant::Layered { .. } => "Layered material (multi-layer)"@,
                TwinVariant::Measured => "Measured material (from BRDF data)"@,
            },
    {
        match self {
            TwinVariant::Static => "Static material (no evolution)",
            TwinVariant::Temporal => "Temporal material (time-evolving)",
            TwinVariant::Layered { .. } => "Layered material (multi-layer)",
            TwinVariant::Measured => "Measured material (from BRDF data)",
        }
    }

    /// Display form: `Static`, `Temporal`, `Layered(<n>)` or `Measured`.
    pub fn to_display_string(&self) -> (r: String)
        ensures
            r@ == match *self {
                TwinVariant::Static => "Static"@,
                TwinVariant::Temporal => "Temporal"@,
                TwinVariant::Layered { layer_count } => "Layered("@ + decimal(layer_count as nat)
                    + ")"@,
                TwinVariant::Measured => "Measured"@,
            },
    {
        match self {
            TwinVariant::Static => "Static".to_owned(),
            TwinVariant::Temporal => "Temporal".to_owned(),
            TwinVariant::Layered { layer_count } => {
                let mut s = "Layered(".to_owned();
                push_decimal(&mut s, *layer_count as u64);
                s.append(")");
                s
            },
            TwinVariant::Measured => "Measured".to_owned(),
        }
    }
}

impl Default for TwinVariant {
    fn default() -> (r: Self)
        ensures
            r == TwinVariant::Static,
    {
        TwinVariant::Static
    }
}

/// Exactly one classification holds of every variant.
pub proof fn lemma_variant_classification(v: TwinVariant)
    ensures
        (v is Static) as int + (v is Temporal) as int + (v is Layered) as int + (v is Measured) as int
            == 1,
{
}

/// Estimate memory usage for the material twin module: a 2 KiB base and
/// ten twins of 640 bytes.
pub fn estimate_material_twin_memory() -> (r: usize)
    ensures
        r == 2 * 1024 + 640 * 10,
{
    let base: usize = 2 * 1024;
    let per_twin: usize = 640;
    let typical_twins: usize = 10;
    base + per_twin * typical_twins
}

} // verus!
