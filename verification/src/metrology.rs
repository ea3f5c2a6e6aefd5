//! Metrological infrastructure: measurement quality and identity, uncertainty
//! propagation methods, tolerance categories and certification tiers, and the
//! memory footprint of the metrology types.
pub mod measurement;
pub mod propagation;
pub mod tolerance;
pub mod traceability;

use vstd::prelude::*;

use crate::decimal::{decimal, push_decimal};
use crate::hex::push_char;
use crate::metrology::traceability::string_views;

verus! {

/// Memory footprint estimates for metrology types.
#[derive(Debug, Clone)]
pub struct MetrologyMemoryEstimate {
    /// Size of a scalar measurement.
    pub measurement_f64_bytes: usize,
    /// Base size of MeasurementArray (without data).
    pub measurement_array_base_bytes: usize,
    /// Base size of TraceabilityChain (without entries).
    pub traceability_chain_base_bytes: usize,
    /// Size of single TraceabilityEntry.
    pub traceability_entry_bytes: usize,
    /// Base size of ToleranceBudget (without components).
    pub tolerance_budget_base_bytes: usize,
    /// Size of single ToleranceComponent.
    pub tolerance_component_bytes: usize,
    /// Size of UncertaintyPropagator.
    pub propagator_bytes: usize,
}

impl MetrologyMemoryEstimate {
    /// Base memory: one of each type, with no data.
    pub open spec fn spec_total_base(&self) -> int {
        self.measurement_f64_bytes + self.measurement_array_base_bytes
            + self.traceability_chain_base_bytes + self.tolerance_budget_base_bytes
            + self.propagator_bytes
    }

    /// Memory of the typical scenario: ten measurements, one array of 100
    /// value/uncertainty pairs (16 bytes each), one chain of 20 entries, one
    /// budget of 10 components and one propagator.
    pub open spec fn spec_typical_usage(&self) -> int {
        self.measurement_f64_bytes * 10 + self.measurement_array_base_bytes + 100 * 16
            + self.traceability_chain_base_bytes + self.traceability_entry_bytes * 20
            + self.tolerance_budget_base_bytes + self.tolerance_component_bytes * 10
            + self.propagator_bytes
    }

    /// Total base memory (all types, minimal data).
    pub fn total_base(&self) -> (r: usize)
        requires
            self.spec_total_base() <= usize::MAX,
        ensures
            r == self.spec_total_base(),
    {
        self.measurement_f64_bytes + self.measurement_array_base_bytes
            + self.traceability_chain_base_bytes + self.tolerance_budget_base_bytes
            + self.propagator_bytes
    }

    /// The typical usage where it fits in `usize`; `None` where it would
    /// overflow.
    pub fn checked_typical_usage(&self) -> (r: Option<usize>)
        ensures
            r matches Some(v) ==> v == self.spec_typical_usage(),
            r is None <==> self.spec_typical_usage() > usize::MAX,
    {
        let total: u128 = (self.measurement_f64_bytes as u128) * 10
            + self.measurement_array_base_bytes as u128 + 1600
            + self.traceability_chain_base_bytes as u128
            + (self.traceability_entry_bytes as u128) * 20
            + self.tolerance_budget_base_bytes as u128
            + (self.tolerance_component_bytes as u128) * 10 + self.propagator_bytes as u128;
        if total <= usize::MAX as u128 {
            Some(self.typical_usage())
        } else {
            None
        }
    }

    /// Estimate memory for typical usage scenario.
    pub fn typical_usage(&self) -> (r: usize)
        requires
            self.spec_typical_usage() <= usize::MAX,
        ensures
            r == self.spec_typical_usage(),
    {
        self.measurement_f64_bytes * 10 + self.measurement_array_base_bytes + 100 * 16
            + self.traceability_chain_base_bytes + self.traceability_entry_bytes * 20
            + self.tolerance_budget_base_bytes + self.tolerance_component_bytes * 10
            + self.propagator_bytes
    }
}

/// `n` in decimal, right-aligned with spaces in a field of four characters
/// (wider numbers take the room they need).
pub open spec fn width4(n: nat) -> Seq<char> {
    let d = decimal(n);
    if d.len() >= 4 {
        d
    } else {
        Seq::new((4 - d.len()) as nat, |i: int| ' ') + d
    }
}

proof fn lemma_decimal_len(n: nat)
    ensures
        n < 10 ==> decimal(n).len() == 1,
        10 <= n < 100 ==> decimal(n).len() == 2,
        100 <= n < 1000 ==> decimal(n).len() == 3,
        1000 <= n ==> decimal(n).len() >= 4,
    decreases n,
{
    if n >= 10 {
        lemma_decimal_len(n / 10);
    }
}

/// Appends `n` right-aligned in a field of four characters.
fn push_width4(s: &mut String, n: usize)
    ensures
        final(s)@ == old(s)@ + width4(n as nat),
{
    proof {
        lemma_decimal_len(n as nat);
    }
    let ghost start = s@;
    let pad: usize = if n < 10 {
        3
    } else if n < 100 {
        2
    } else if n < 1000 {
        1
    } else {
        0
    };
    let mut k: usize = 0;
    while k < pad
        invariant
            k <= pad,
            pad <= 3,
            s@ == start + Seq::new(k as nat, |i: int| ' '),
        decreases pad - k,
    {
        push_char(s, ' ');
        assert(s@ =~= start + Seq::new((k + 1) as nat, |i: int| ' '));
        k = k + 1;
    }
    push_decimal(s, n as u64);
    assert(s@ =~= start + width4(n as nat));
}

/// The memory report; the typical usage in KB (one decimal) comes written.
pub open spec fn memory_report_text(e: MetrologyMemoryEstimate, typical_kb: Seq<char>) -> Seq<char> {
    "Metrology Memory Footprint:\n"@ + "\u{251c}\u{2500}\u{2500} Measurement<f64>:     "@
        + width4(e.measurement_f64_bytes as nat) + " bytes\n"@
        + "\u{251c}\u{2500}\u{2500} MeasurementArray:     "@ + width4(
        e.measurement_array_base_bytes as nat,
    ) + " bytes (base)\n"@ + "\u{251c}\u{2500}\u{2500} TraceabilityChain:    "@ + width4(
        e.traceability_chain_base_bytes as nat,
    ) + " bytes (base)\n"@ + "\u{2502}   \u{2514}\u{2500}\u{2500} Entry:            "@ + width4(
        e.traceability_entry_bytes as nat,
    ) + " bytes each\n"@ + "\u{251c}\u{2500}\u{2500} ToleranceBudget:      "@ + width4(
        e.tolerance_budget_base_bytes as nat,
    ) + " bytes (base)\n"@ + "\u{2502}   \u{2514}\u{2500}\u{2500} Component:        "@ + width4(
        e.tolerance_component_bytes as nat,
    ) + " bytes each\n"@ + "\u{251c}\u{2500}\u{2500} UncertaintyPropagator:"@ + width4(
        e.propagator_bytes as nat,
    ) + " bytes\n"@ + "\u{251c}\u{2500}\u{2500} Total Base:           "@ + width4(
        e.spec_total_base() as nat,
    ) + " bytes\n"@ + "\u{2514}\u{2500}\u{2500} Typical Usage:        "@ + width4(
        e.spec_typical_usage() as nat,
    ) + " bytes (~"@ + typical_kb + " KB)"@
}

impl MetrologyMemoryEstimate {
    /// Generate memory report; `typical_kb` is the typical usage in KB,
    /// written with one decimal.
    pub fn report(&self, typical_kb: &str) -> (r: String)
        requires
            self.spec_typical_usage() <= usize::MAX,
        ensures
            r@ == memory_report_text(*self, typical_kb@),
    {
        let mut s = String::new();
        s.append("Metrology Memory Footprint:\n");
        s.append("\u{251c}\u{2500}\u{2500} Measurement<f64>:     ");
        push_width4(&mut s, self.measurement_f64_bytes);
        s.append(" bytes\n");
        s.append("\u{251c}\u{2500}\u{2500} MeasurementArray:     ");
        push_width4(&mut s, self.measurement_array_base_bytes);
        s.append(" bytes (base)\n");
        s.append("\u{251c}\u{2500}\u{2500} TraceabilityChain:    ");
        push_width4(&mut s, self.traceability_chain_base_bytes);
        s.append(" bytes (base)\n");
        s.append("\u{2502}   \u{2514}\u{2500}\u{2500} Entry:            ");
        push_width4(&mut s, self.traceability_entry_bytes);
        s.append(" bytes each\n");
        s.append("\u{251c}\u{2500}\u{2500} ToleranceBudget:      ");
        push_width4(&mut s, self.tolerance_budget_base_bytes);
        s.append(" bytes (base)\n");
        s.append("\u{2502}   \u{2514}\u{2500}\u{2500} Component:        ");
        push_width4(&mut s, self.tolerance_component_bytes);
        s.append(" bytes each\n");
        s.append("\u{251c}\u{2500}\u{2500} UncertaintyPropagator:");
        push_width4(&mut s, self.propagator_bytes);
        s.append(" bytes\n");
        s.append("\u{251c}\u{2500}\u{2500} Total Base:           ");
        proof {
            lemma_typical_exceeds_base(*self);
        }
        let base = self.total_base();
        push_width4(&mut s, base);
        s.append(" bytes\n");
        s.append("\u{2514}\u{2500}\u{2500} Typical Usage:        ");
        let typical = self.typical_usage();
        push_width4(&mut s, typical);
        s.append(" bytes (~");
        s.append(typical_kb);
        s.append(" KB)");
        assert(s@ =~= memory_report_text(*self, typical_kb@));
        s
    }
}

/// Result of metrology module validation.
#[derive(Debug)]
pub struct MetrologyValidation {
    /// Whether validation passed.
    pub valid: bool,
    /// List of issues found.
    pub issues: Vec<String>,
    /// Memory footprint estimate.
    pub memory_estimate: MetrologyMemoryEstimate,
}

/// The issues found by the module checks, in the order they are checked: a
/// scalar measurement larger than 256 bytes, a degree/radian round trip that
/// does not come back, a Celsius/Kelvin round trip that does not come back.
pub open spec fn validation_issues(
    measurement_size: nat,
    angle_round_trip_ok: bool,
    temperature_round_trip_ok: bool,
) -> Seq<Seq<char>> {
    (if measurement_size > 256 {
        seq!["Measurement<f64> size "@ + decimal(measurement_size) + " bytes exceeds 256 byte limit"@]
    } else {
        Seq::empty()
    }) + (if angle_round_trip_ok {
        Seq::empty()
    } else {
        seq!["Degree/radian conversion not reciprocal"@]
    }) + (if temperature_round_trip_ok {
        Seq::empty()
    } else {
        seq!["Celsius/Kelvin conversion not reciprocal"@]
    })
}

impl MetrologyValidation {
    /// The validation result from the outcome of each module check: the
    /// size of a scalar measurement in bytes, and whether the degree/radian
    /// and Celsius/Kelvin conversions come back to the value they started
    /// from. Valid exactly when no issue is found.
    pub fn from_checks(
        measurement_size: usize,
        angle_round_trip_ok: bool,
        temperature_round_trip_ok: bool,
        memory_estimate: MetrologyMemoryEstimate,
    ) -> (r: Self)
        ensures
            string_views(r.issues@) == validation_issues(
                measurement_size as nat,
                angle_round_trip_ok,
                temperature_round_trip_ok,
            ),
            r.valid == (r.issues@.len() == 0),
            r.memory_estimate == memory_estimate,
    {
        let mut issues: Vec<String> = Vec::new();
        if measurement_size > 256 {
            let mut m = String::new();
            m.append("Measurement<f64> size ");
            push_decimal(&mut m, measurement_size as u64);
            m.append(" bytes exceeds 256 byte limit");
            issues.push(m);
        }
        if !angle_round_trip_ok {
            issues.push("Degree/radian conversion not reciprocal".to_string());
        }
        if !temperature_round_trip_ok {
            issues.push("Celsius/Kelvin conversion not reciprocal".to_string());
        }
        proof {
            assert(string_views(issues@) =~= validation_issues(
                measurement_size as nat,
                angle_round_trip_ok,
                temperature_round_trip_ok,
            ));
        }
        let valid = issues.len() == 0;
        MetrologyValidation { valid, issues, memory_estimate }
    }
}

/// The typical scenario always needs more memory than the bare base: it holds
/// every base type at least once, plus the array data.
pub proof fn lemma_typical_exceeds_base(e: MetrologyMemoryEstimate)
    ensures
        e.spec_typical_usage() > e.spec_total_base(),
        e.spec_typical_usage() >= e.spec_total_base() + 1600,
{
}

} // verus!
