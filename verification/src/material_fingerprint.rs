//! Deterministic material identification and versioning for reproducibility.
use vstd::prelude::*;
use vstd::utf8::*;
use vstd::string::*;

use crate::decimal::{decimal, decimal_pad2, push_decimal, push_decimal_pad2};
pub use crate::bit_exact::{bit_difference, verify_bit_exact, verify_near_exact};
pub use crate::calibration_log::{CalibrationEntry, CalibrationLog};
pub use crate::fingerprint_hash::deterministic_hash;
pub use crate::named_params::fingerprint_from_named;
pub use crate::param_fingerprint::{deterministic_hash_f64, fingerprint_from_params};
use crate::fingerprint_hash::spec_deterministic_hash;
use crate::hex::{
    hex_byte_value, hex_digit, hex_encode, hex_pair_ok, hex_pair_value, hex_pairs_ok,
    lemma_hex_encode_ascii, lemma_hex_pair_roundtrip, read_hex_pair, to_hex_string,
};
use crate::material_import::{decode_lossy, utf8_lossy};

verus! {

/// Current schema version for fingerprinting.
pub const CURRENT_SCHEMA_VERSION: u32 = 1;

/// Engine version string.
pub const ENGINE_VERSION: &'static str = "momoto-materials-0.8.0";

/// Maximum calibration log entries before rotation.
pub const MAX_LOG_ENTRIES: usize = 1000;

/// Material fingerprint for reproducibility and identification.
#[derive(Debug, Clone, PartialEq, Eq)]
pub struct MaterialFingerprint {
    /// 256-bit content hash.
    pub hash: [u8; 32],
    /// Schema version (for migration compatibility).
    pub schema_version: u32,
    /// Engine version that produced this fingerprint.
    pub engine_version: String,
    /// Timestamp (optional, for audit trails).
    pub timestamp: Option<u64>,
}

/// Fingerprint errors.
#[derive(Debug, Clone)]
pub enum FingerprintError {
    /// Hex string has wrong length.
    InvalidHexLength { expected: usize, actual: usize },
    /// Invalid hex character.
    InvalidHexChar(String),
    /// Schema version mismatch.
    IncompatibleSchema { expected: u32, actual: u32 },
    /// Verification failed.
    VerificationFailed,
}

/// A fingerprint as this engine builds it: the given hash, the current
/// schema and the engine's version string.
pub open spec fn is_engine_fingerprint(fp: MaterialFingerprint, hash: Seq<u8>) -> bool {
    &&& fp.hash@ == hash
    &&& fp.schema_version == CURRENT_SCHEMA_VERSION
    &&& fp.engine_version@ == ENGINE_VERSION@
}

/// The 32 bytes that the pairs of a 64-byte hex string write.
pub open spec fn hex_decoded(b: Seq<u8>) -> Seq<u8> {
    Seq::new(32, |j: int| hex_pair_value(b, j))
}

/// Compares two 32-byte hashes.
pub fn hash_eq(a: &[u8; 32], b: &[u8; 32]) -> (r: bool)
    ensures
        r == (a@ == b@),
{
    let mut i: usize = 0;
    while i < 32
        invariant
            i <= 32,
            forall|j: int| 0 <= j < i ==> a@[j] == b@[j],
        decreases 32 - i,
    {
        if a[i] != b[i] {
            return false;
        }
        i = i + 1;
    }
    assert(a@ =~= b@);
    true
}

/// Current time in nanoseconds since the Unix epoch, read with
/// `SystemTime::now().duration_since(UNIX_EPOCH)`; 0 when the clock is
/// before the epoch, and the nanosecond count truncated to 64 bits. Nothing
/// is promised of the value: it depends on the clock.
#[verifier::external_body]
pub(crate) fn current_timestamp() -> u64 {
    match std::time::SystemTime::now().duration_since(std::time::UNIX_EPOCH) {
        Ok(d) => d.as_nanos() as u64,
        Err(_) => 0,
    }
}

fn engine_version_string() -> (r: String)
    ensures
        r@ == ENGINE_VERSION@,
{
    ENGINE_VERSION.to_owned()
}

impl MaterialFingerprint {
    /// Create new fingerprint with given hash, stamped with the current time.
    pub fn new(hash: [u8; 32]) -> (r: Self)
        ensures
            is_engine_fingerprint(r, hash@),
            r.timestamp is Some,
    {
        MaterialFingerprint {
            hash,
            schema_version: CURRENT_SCHEMA_VERSION,
            engine_version: engine_version_string(),
            timestamp: Some(current_timestamp()),
        }
    }

    /// Create fingerprint without timestamp (for deterministic comparison).
    pub fn new_deterministic(hash: [u8; 32]) -> (r: Self)
        ensures
            is_engine_fingerprint(r, hash@),
            r.timestamp is None,
    {
        MaterialFingerprint {
            hash,
            schema_version: CURRENT_SCHEMA_VERSION,
            engine_version: engine_version_string(),
            timestamp: None,
        }
    }

    /// Convert hash to a lowercase hex string (64 characters).
    pub fn to_hex(&self) -> (r: String)
        ensures
            r@ == hex_encode(self.hash@),
    {
        to_hex_string(&self.hash)
    }

    /// Parse fingerprint from a hex string: 64 hex digits (either case), two
    /// per hash byte, high digit first. A wrong length is reported first;
    /// otherwise the first pair that is not two hex digits is reported, as
    /// its bytes decoded (`String::from_utf8_lossy`: a pair that is valid
    /// UTF-8 as its characters).
    pub fn from_hex(hex: &str) -> (r: Result<Self, FingerprintError>)
        ensures
            hex.spec_bytes().len() != 64 ==> r == Err::<Self, FingerprintError>(
                FingerprintError::InvalidHexLength { expected: 64, actual: hex.spec_bytes().len() as usize },
            ),
            hex.spec_bytes().len() == 64 && hex_pairs_ok(hex.spec_bytes(), 32) ==> r is Ok
                && is_engine_fingerprint(r->Ok_0, hex_decoded(hex.spec_bytes()))
                && r->Ok_0.timestamp is None,
            hex.spec_bytes().len() == 64 ==> forall|k: int|
                0 <= k < 32 && hex_pairs_ok(hex.spec_bytes(), k) && !#[trigger] hex_pair_ok(
                    hex.spec_bytes(),
                    k,
                ) ==> (r matches Err(FingerprintError::InvalidHexChar(s)) && s@ == utf8_lossy(
                    hex.spec_bytes().subrange(2 * k, 2 * k + 2),
                ) && (valid_utf8(hex.spec_bytes().subrange(2 * k, 2 * k + 2)) ==> s@ == decode_utf8(
                    hex.spec_bytes().subrange(2 * k, 2 * k + 2),
                ))),
    {
        let bytes = hex.as_bytes();
        let n = bytes.len();
        if n != 64 {
            return Err(FingerprintError::InvalidHexLength { expected: 64, actual: n });
        }
        let ghost b = hex.spec_bytes();
        let mut hash = [0u8; 32];
        let mut i: usize = 0;
        while i < 32
            invariant
                b == hex.spec_bytes(),
                bytes@ == b,
                b.len() == 64,
                i <= 32,
                hex_pairs_ok(b, i as int),
                forall|j: int| 0 <= j < i ==> hash@[j] == hex_pair_value(b, j),
            decreases 32 - i,
        {
            let hi = bytes[2 * i];
            let lo = bytes[2 * i + 1];
            match read_hex_pair(hi, lo) {
                Some(v) => {
                    hash[i] = v;
                },
                None => {
                    let pair: [u8; 2] = [hi, lo];
                    let s = decode_lossy(pair.as_slice());
                    proof {
                        assert(pair@ =~= b.subrange(2 * i, 2 * i + 2));
                        assert forall|k: int|
                            0 <= k < 32 && hex_pairs_ok(b, k) && !#[trigger] hex_pair_ok(
                                b,
                                k,
                            ) implies k == i by {
                            if k < i {
                                assert(hex_pair_ok(b, k));
                            } else if k > i {
                                assert(hex_pair_ok(b, i as int));
                            }
                        }
                        assert(!hex_pairs_ok(b, 32)) by {
                            if hex_pairs_ok(b, 32) {
                                assert(hex_pair_ok(b, i as int));
                            }
                        }
                    }
                    return Err(FingerprintError::InvalidHexChar(s));
                },
            }
            proof {
                assert(hex_pair_ok(b, i as int));
                assert forall|j: int| 0 <= j < i + 1 implies #[trigger] hex_pair_ok(b, j) by {
                    if j < i {
                        assert(hex_pair_ok(b, j));
                    }
                }
            }
            i = i + 1;
        }
        assert(hash@ =~= hex_decoded(b));
        assert forall|k: int|
            0 <= k < 32 && hex_pairs_ok(b, k) && !#[trigger] hex_pair_ok(b, k) implies false by {
            assert(hex_pair_ok(b, k));
        }
        Ok(
            MaterialFingerprint {
                hash,
                schema_version: CURRENT_SCHEMA_VERSION,
                engine_version: engine_version_string(),
                timestamp: None,
            },
        )
    }

    /// Get short hash (first 8 hex chars).
    pub fn short_hash(&self) -> (r: String)
        ensures
            r@ == hex_encode(self.hash@).subrange(0, 8),
    {
        let prefix: [u8; 4] = [self.hash[0], self.hash[1], self.hash[2], self.hash[3]];
        let r = to_hex_string(&prefix);
        proof {
            let h = self.hash@;
            assert(prefix@ =~= h.subrange(0, 4));
            assert forall|k: int| 0 <= k < 8 implies hex_encode(h.subrange(0, 4))[k] == hex_encode(
                h,
            )[k] by {
                assert(0 <= k / 2 < 4);
            }
            assert(hex_encode(h.subrange(0, 4)) =~= hex_encode(h).subrange(0, 8));
        }
        r
    }

    /// Check if fingerprints are equal (ignoring timestamp and engine version).
    pub fn content_equals(&self, other: &Self) -> (r: bool)
        ensures
            r == (self.hash@ == other.hash@ && self.schema_version == other.schema_version),
    {
        hash_eq(&self.hash, &other.hash) && self.schema_version == other.schema_version
    }

    /// Check schema compatibility.
    pub fn is_compatible(&self) -> (r: bool)
        ensures
            r == (self.schema_version <= CURRENT_SCHEMA_VERSION),
    {
        self.schema_version <= CURRENT_SCHEMA_VERSION
    }

    /// Create fingerprint from raw bytes (for testing): the first 32 bytes,
    /// padded with zeros.
    pub fn from_bytes(bytes: &[u8]) -> (r: Self)
        ensures
            is_engine_fingerprint(
                r,
                Seq::new(32, |i: int| if i < bytes@.len() { bytes@[i] } else { 0u8 }),
            ),
            r.timestamp is None,
    {
        let mut hash = [0u8; 32];
        let len = if bytes.len() < 32 { bytes.len() } else { 32 };
        let mut i: usize = 0;
        while i < len
            invariant
                len <= 32,
                len <= bytes@.len(),
                len == 32 || len == bytes@.len(),
                i <= len,
                forall|j: int| 0 <= j < i ==> hash@[j] == bytes@[j],
                forall|j: int| i <= j < 32 ==> hash@[j] == 0u8,
            decreases len - i,
        {
            hash[i] = bytes[i];
            i = i + 1;
        }
        assert(hash@ =~= Seq::new(32, |i: int| if i < bytes@.len() { bytes@[i] } else { 0u8 }));
        Self::new_deterministic(hash)
    }

    /// Human-readable form: `MaterialFingerprint(<8 hex>..., v<schema>, <engine>)`.
    pub fn to_display_string(&self) -> (r: String)
        ensures
            r@ == "MaterialFingerprint("@ + hex_encode(self.hash@).subrange(0, 8) + "..., v"@
                + decimal(self.schema_version as nat) + ", "@ + self.engine_version@ + ")"@,
    {
        let mut s = "MaterialFingerprint(".to_owned();
        let short = self.short_hash();
        s.append(short.as_str());
        s.append("..., v");
        push_decimal(&mut s, self.schema_version as u64);
        s.append(", ");
        s.append(self.engine_version.as_str());
        s.append(")");
        s
    }
}

impl FingerprintError {
    /// Human-readable message of the error.
    pub fn to_display_string(&self) -> (r: String)
        ensures
            r@ == match self {
                FingerprintError::InvalidHexLength { expected, actual } => "Invalid hex length: expected "@
                    + decimal(*expected as nat) + ", got "@ + decimal(*actual as nat),
                FingerprintError::InvalidHexChar(s) => "Invalid hex character: "@ + s@,
                FingerprintError::IncompatibleSchema { expected, actual } => "Incompatible schema: expected v"@
                    + decimal(*expected as nat) + ", got v"@ + decimal(*actual as nat),
                FingerprintError::VerificationFailed => "Fingerprint verification failed"@,
            },
    {
        match self {
            FingerprintError::InvalidHexLength { expected, actual } => {
                let mut s = "Invalid hex length: expected ".to_owned();
                push_decimal(&mut s, *expected as u64);
                s.append(", got ");
                push_decimal(&mut s, *actual as u64);
                s
            },
            FingerprintError::InvalidHexChar(c) => {
                let mut s = "Invalid hex character: ".to_owned();
                s.append(c.as_str());
                s
            },
            FingerprintError::IncompatibleSchema { expected, actual } => {
                let mut s = "Incompatible schema: expected v".to_owned();
                push_decimal(&mut s, *expected as u64);
                s.append(", got v");
                push_decimal(&mut s, *actual as u64);
                s
            },
            FingerprintError::VerificationFailed => "Fingerprint verification failed".to_owned(),
        }
    }
}

/// Material version with edit history.
#[derive(Debug)]
pub struct MaterialVersion {
    /// Current fingerprint.
    pub fingerprint: MaterialFingerprint,
    /// Parent version (if any).
    pub parent: Option<Box<MaterialVersion>>,
    /// Description of change from parent.
    pub change_description: Option<String>,
    /// Version number (auto-incremented from parent).
    pub version_number: u32,
}

/// Number of versions in the chain that ends at `v` (itself included).
pub open spec fn version_depth(v: MaterialVersion) -> nat
    decreases v,
{
    match v.parent {
        None => 1,
        Some(p) => 1 + version_depth(*p),
    }
}

/// The version `n` steps up the parent chain from `v` (`v` itself for 0).
pub open spec fn ancestor(v: MaterialVersion, n: nat) -> MaterialVersion
    decreases v,
{
    if n == 0 {
        v
    } else {
        match v.parent {
            None => v,
            Some(p) => ancestor(*p, (n - 1) as nat),
        }
    }
}

/// The history of `v`, oldest first: the root, ..., the parent, `v`.
pub open spec fn version_history(v: MaterialVersion) -> Seq<MaterialVersion> {
    Seq::new(version_depth(v), |k: int| ancestor(v, (version_depth(v) - 1 - k) as nat))
}

/// The parent chain of a version built by `initial` and `derive` numbers
/// its versions 1, 2, ...: the number equals the depth.
pub open spec fn numbered_by_depth(v: MaterialVersion) -> bool {
    v.version_number == version_depth(v)
}

impl MaterialFingerprint {
    /// A field-by-field copy.
    pub fn copy(&self) -> (r: Self)
        ensures
            r == *self,
    {
        MaterialFingerprint {
            hash: self.hash,
            schema_version: self.schema_version,
            engine_version: self.engine_version.clone(),
            timestamp: self.timestamp,
        }
    }
}

impl MaterialVersion {
    /// A copy of the whole chain.
    pub fn copy(&self) -> (r: Self)
        ensures
            r == *self,
        decreases self,
    {
        let parent = match &self.parent {
            None => None,
            Some(p) => Some(Box::new(p.copy())),
        };
        let change_description = match &self.change_description {
            None => None,
            Some(d) => Some(d.clone()),
        };
        MaterialVersion {
            fingerprint: self.fingerprint.copy(),
            parent,
            change_description,
            version_number: self.version_number,
        }
    }

    /// Create initial version.
    pub fn initial(fingerprint: MaterialFingerprint) -> (r: Self)
        ensures
            r.fingerprint == fingerprint,
            r.parent is None,
            r.change_description matches Some(d) && d@ == "Initial version"@,
            r.version_number == 1,
            version_depth(r) == 1,
    {
        MaterialVersion {
            fingerprint,
            parent: None,
            change_description: Some("Initial version".to_owned()),
            version_number: 1,
        }
    }

    /// Create new version derived from this one.
    pub fn derive(&self, new_fingerprint: MaterialFingerprint, description: &str) -> (r: Self)
        requires
            self.version_number < u32::MAX,
        ensures
            r.fingerprint == new_fingerprint,
            r.parent == Some(Box::new(*self)),
            r.change_description matches Some(d) && d@ == description@,
            r.version_number == self.version_number + 1,
            version_depth(r) == version_depth(*self) + 1,
            version_history(r) == version_history(*self).push(r),
    {
        let r = MaterialVersion {
            fingerprint: new_fingerprint,
            parent: Some(Box::new(self.copy())),
            change_description: Some(description.to_owned()),
            version_number: self.version_number + 1,
        };
        proof {
            lemma_history_of_child(r, *self);
        }
        r
    }

    /// Get version history as list (oldest first).
    pub fn history(&self) -> (r: Vec<&MaterialVersion>)
        ensures
            r@.len() == version_depth(*self),
            forall|k: int| 0 <= k < r@.len() ==> *r@[k] == version_history(*self)[k],
    {
        let mut newest_first: Vec<&MaterialVersion> = Vec::new();
        let mut current: &MaterialVersion = self;
        loop
            invariant_except_break
                version_depth(*self) == newest_first@.len() + version_depth(*current),
                *current == ancestor(*self, newest_first@.len()),
            invariant
                forall|k: int|
                    0 <= k < newest_first@.len() ==> *newest_first@[k] == ancestor(
                        *self,
                        k as nat,
                    ),
            ensures
                newest_first@.len() == version_depth(*self),
            decreases version_depth(*current),
        {
            newest_first.push(current);
            proof {
                lemma_ancestor_step(*self, (newest_first@.len() - 1) as nat);
            }
            match &current.parent {
                None => {
                    break ;
                },
                Some(p) => {
                    current = &**p;
                },
            }
        }
        let n = newest_first.len();
        let mut r: Vec<&MaterialVersion> = Vec::new();
        let mut i: usize = n;
        while i > 0
            invariant
                i <= n,
                n == newest_first@.len(),
                n == version_depth(*self),
                r@.len() == n - i,
                forall|k: int|
                    0 <= k < newest_first@.len() ==> *newest_first@[k] == ancestor(
                        *self,
                        k as nat,
                    ),
                forall|k: int| 0 <= k < r@.len() ==> *r@[k] == ancestor(*self, (n - 1 - k) as nat),
            decreases i,
        {
            i = i - 1;
            r.push(newest_first[i]);
        }
        r
    }

    /// Get depth of version history.
    pub fn depth(&self) -> (r: usize)
        ensures
            r == version_depth(*self),
    {
        self.history().len()
    }
}

impl Clone for MaterialVersion {
    fn clone(&self) -> (r: Self)
        ensures
            r == *self,
    {
        self.copy()
    }
}

/// One step up the chain: the ancestor at `n + 1` is the parent of the
/// ancestor at `n`, whenever that one has a parent.
pub proof fn lemma_ancestor_step(v: MaterialVersion, n: nat)
    requires
        n < version_depth(v),
    ensures
        ancestor(v, n).parent matches Some(p) ==> ancestor(v, n + 1) == *p,
        ancestor(v, n).parent is None ==> version_depth(v) == n + 1,
        ancestor(v, n).parent matches Some(p) ==> version_depth(v) == n + 1 + version_depth(*p),
        version_depth(v) == n + version_depth(ancestor(v, n)),
    decreases v,
{
    reveal_with_fuel(ancestor, 2);
    if n > 0 {
        match v.parent {
            None => {},
            Some(p) => {
                lemma_ancestor_step(*p, (n - 1) as nat);
            },
        }
    }
}

/// The history of a child is the history of its parent with the child
/// appended.
pub proof fn lemma_history_of_child(c: MaterialVersion, p: MaterialVersion)
    requires
        c.parent == Some(Box::new(p)),
    ensures
        version_depth(c) == version_depth(p) + 1,
        version_history(c) == version_history(p).push(c),
{
    let hc = version_history(c);
    let hp = version_history(p).push(c);
    assert forall|k: int| 0 <= k < hc.len() implies hc[k] == hp[k] by {
        if k < version_depth(p) {
            let n = (version_depth(c) - 1 - k) as nat;
            assert(n > 0);
            assert(ancestor(c, n) == ancestor(p, (n - 1) as nat));
        }
    }
    assert(hc =~= hp);
}

/// Versions built by `initial` and `derive` stay numbered by depth: if a
/// version's number equals its depth, so does that of any version derived
/// from it.
pub proof fn lemma_derive_keeps_numbering(
    parent: MaterialVersion,
    fingerprint: MaterialFingerprint,
    description: Option<String>,
)
    requires
        numbered_by_depth(parent),
        parent.version_number < u32::MAX,
    ensures
        numbered_by_depth(
            MaterialVersion {
                fingerprint,
                parent: Some(Box::new(parent)),
                change_description: description,
                version_number: (parent.version_number + 1) as u32,
            },
        ),
{
}

/// Hex round trip: the UTF-8 bytes of the hex encoding of any 32-byte hash
/// are 64 hex digits whose pairs write the hash; so `from_hex` of `to_hex`
/// gives the hash back.
pub proof fn lemma_hex_roundtrip(h: Seq<u8>)
    requires
        h.len() == 32,
    ensures
        encode_utf8(hex_encode(h)).len() == 64,
        hex_pairs_ok(encode_utf8(hex_encode(h)), 32),
        hex_decoded(encode_utf8(hex_encode(h))) == h,
{
    let cs = hex_encode(h);
    let b = encode_utf8(cs);
    lemma_hex_encode_ascii(h);
    is_ascii_chars_encode_utf8(cs);
    assert forall|k: int| 0 <= k < 32 implies #[trigger] hex_pair_ok(b, k) && hex_pair_value(b, k)
        == h[k] by {
        assert((2 * k) / 2 == k && (2 * k) % 2 == 0);
        assert((2 * k + 1) / 2 == k && (2 * k + 1) % 2 == 1);
        assert(b[2 * k] == cs[2 * k] as u8);
        assert(b[2 * k + 1] == cs[2 * k + 1] as u8);
        lemma_hex_pair_roundtrip(h[k]);
    }
    assert(hex_decoded(b) =~= h);
}

/// Hash string for fingerprinting: the hash of its UTF-8 bytes.
pub fn hash_string(s: &str) -> (r: [u8; 32])
    ensures
        r@ == spec_deterministic_hash(s.spec_bytes()),
{
    deterministic_hash(s.as_bytes())
}

/// A nanosecond timestamp as elapsed days and time of day:
/// `<days>d HH:MM:SS`, the clock fields zero-padded to two digits.
pub open spec fn timestamp_text(ns: u64) -> Seq<char> {
    let secs = ns / 1_000_000_000;
    let mins = secs / 60;
    let hours = mins / 60;
    let days = hours / 24;
    decimal(days as nat) + "d "@ + decimal_pad2((hours % 24) as nat) + ":"@ + decimal_pad2(
        (mins % 60) as nat,
    ) + ":"@ + decimal_pad2((secs % 60) as nat)
}

/// Format a nanosecond timestamp for log lines (approximate, no calendar).
pub fn format_timestamp(ns: u64) -> (r: String)
    ensures
        r@ == timestamp_text(ns),
{
    let secs = ns / 1_000_000_000;
    let mins = secs / 60;
    let hours = mins / 60;
    let days = hours / 24;
    let mut s = String::new();
    push_decimal(&mut s, days);
    s.append("d ");
    push_decimal_pad2(&mut s, hours % 24);
    s.append(":");
    push_decimal_pad2(&mut s, mins % 60);
    s.append(":");
    push_decimal_pad2(&mut s, secs % 60);
    s
}

/// Estimate memory usage for fingerprint module: a 1 KiB base and
/// 100 calibration entries of 200 bytes.
pub fn total_fingerprint_memory() -> (r: usize)
    ensures
        r == 1024 + 100 * 200,
{
    1024 + 100 * 200
}

} // verus!
