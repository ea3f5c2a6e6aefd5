//! Uncertainty kinds, quality classes, sources and identifiers of
//! measurements. Floating-point figures are held as `f64` bit patterns.
use vstd::prelude::*;

verus! {

/// Quality classification of a measurement, best first.
#[derive(Debug, Clone, Copy, PartialEq, Eq, PartialOrd, Ord)]
pub enum MeasurementQuality {
    /// Calibrated against traceable standard.
    Calibrated,
    /// Validated against reference but not formally calibrated.
    Validated,
    /// Estimated from model or calculation.
    Estimated,
    /// Interpolated between measured points.
    Interpolated,
    /// Extrapolated beyond measured range.
    Extrapolated,
    /// Unknown or unverified quality.
    Unknown,
}

/// Qualities accepted for industrial use.
pub open spec fn quality_acceptable(q: MeasurementQuality) -> bool {
    q is Calibrated || q is Validated || q is Estimated
}

impl MeasurementQuality {
    /// Is acceptable for industrial use?
    pub fn is_acceptable(&self) -> (r: bool)
        ensures
            r == quality_acceptable(*self),
    {
        match self {
            MeasurementQuality::Calibrated | MeasurementQuality::Validated
            | MeasurementQuality::Estimated => true,
            _ => false,
        }
    }

    /// Is acceptable for reference use?
    pub fn is_reference_grade(&self) -> (r: bool)
        ensures
            r == (*self is Calibrated),
    {
        match self {
            MeasurementQuality::Calibrated => true,
            _ => false,
        }
    }
}

/// Reference grade is the strictest class: every reference-grade quality is
/// acceptable for industrial use, and `Unknown` is neither.
pub proof fn lemma_reference_grade_is_acceptable(q: MeasurementQuality)
    ensures
        q is Calibrated ==> quality_acceptable(q),
        !quality_acceptable(MeasurementQuality::Unknown),
{
}

impl Default for MeasurementQuality {
    fn default() -> (r: Self)
        ensures
            r == MeasurementQuality::Unknown,
    {
        MeasurementQuality::Unknown
    }
}

/// Unique identifier for a measurement (for traceability).
#[derive(Debug, Clone, Copy, PartialEq, Eq, Hash)]
pub struct MeasurementId(pub u64);

impl MeasurementId {
    /// Create from raw value.
    pub fn new(id: u64) -> (r: Self)
        ensures
            r.0 == id,
    {
        MeasurementId(id)
    }

    /// Get raw value.
    pub fn value(&self) -> (r: u64)
        ensures
            r == self.0,
    {
        self.0
    }
}

/// Uncertainty classification (GUM-compliant); figures as `f64` bit
/// patterns.
#[derive(Debug, Clone)]
pub enum Uncertainty {
    /// Type A: Statistical uncertainty from repeated measurements.
    TypeA {
        /// Standard error of the mean.
        std_error_bits: u64,
        /// Number of samples.
        n_samples: usize,
    },
    /// Type B: Systematic uncertainty from other sources.
    TypeB {
        /// Estimated systematic uncertainty.
        systematic_bits: u64,
        /// Source description.
        source: String,
    },
    /// Combined uncertainty (RSS of Type A and Type B).
    Combined {
        /// Type A component.
        type_a_bits: u64,
        /// Type B component.
        type_b_bits: u64,
    },
    /// Unknown uncertainty (not yet characterized).
    Unknown,
}

impl Uncertainty {
    /// Create Type A uncertainty.
    pub fn type_a(std_error_bits: u64, n_samples: usize) -> (r: Self)
        ensures
            r == (Uncertainty::TypeA { std_error_bits, n_samples }),
    {
        Uncertainty::TypeA { std_error_bits, n_samples }
    }

    /// Create Type B uncertainty.
    pub fn type_b(systematic_bits: u64, source: &str) -> (r: Self)
        ensures
            r matches Uncertainty::TypeB { systematic_bits: b, source: s } && b == systematic_bits
                && s@ == source@,
    {
        Uncertainty::TypeB { systematic_bits, source: source.to_owned() }
    }

    /// Create combined uncertainty.
    pub fn combined(type_a_bits: u64, type_b_bits: u64) -> (r: Self)
        ensures
            r == (Uncertainty::Combined { type_a_bits, type_b_bits }),
    {
        Uncertainty::Combined { type_a_bits, type_b_bits }
    }

    /// Check if uncertainty is characterized.
    pub fn is_known(&self) -> (r: bool)
        ensures
            r == !(*self is Unknown),
    {
        match self {
            Uncertainty::Unknown => false,
            _ => true,
        }
    }

    /// Get degrees of freedom (for Type A only): one less than the sample
    /// count, and zero for no samples.
    pub fn degrees_of_freedom(&self) -> (r: Option<usize>)
        ensures
            r == match *self {
                Uncertainty::TypeA { n_samples, .. } => Some(
                    (if n_samples > 0 {
                        n_samples - 1
                    } else {
                        0
                    }) as usize,
                ),
                _ => None,
            },
    {
        match self {
            Uncertainty::TypeA { n_samples, .. } => Some(n_samples.saturating_sub(1)),
            _ => None,
        }
    }
}

impl Default for Uncertainty {
    fn default() -> (r: Self)
        ensures
            r is Unknown,
    {
        Uncertainty::Unknown
    }
}

/// Source of the measurement.
#[derive(Debug, Clone)]
pub enum MeasurementSource {
    /// Direct instrument measurement.
    Instrument { name: String, model: String },
    /// Model prediction.
    Model { name: String, version: String },
    /// Literature or database value.
    Reference { citation: String },
    /// User-provided value.
    UserInput,
    /// Calculated/derived value.
    Calculated { method: String },
    /// Neural network correction (magnitude as an `f64` bit pattern).
    NeuralCorrection { magnitude_bits: u64 },
    /// Unknown source.
    Unknown,
}

impl MeasurementSource {
    /// Create instrument source.
    pub fn instrument(name: &str, model: &str) -> (r: Self)
        ensures
            r matches MeasurementSource::Instrument { name: n, model: m } && n@ == name@ && m@
                == model@,
    {
        MeasurementSource::Instrument { name: name.to_owned(), model: model.to_owned() }
    }

    /// Create model source.
    pub fn model(name: &str, version: &str) -> (r: Self)
        ensures
            r matches MeasurementSource::Model { name: n, version: v } && n@ == name@ && v@
                == version@,
    {
        MeasurementSource::Model { name: name.to_owned(), version: version.to_owned() }
    }

    /// Create reference source.
    pub fn reference(citation: &str) -> (r: Self)
        ensures
            r matches MeasurementSource::Reference { citation: c } && c@ == citation@,
    {
        MeasurementSource::Reference { citation: citation.to_owned() }
    }

    /// Create calculated source.
    pub fn calculated(method: &str) -> (r: Self)
        ensures
            r matches MeasurementSource::Calculated { method: m } && m@ == method@,
    {
        MeasurementSource::Calculated { method: method.to_owned() }
    }

    /// Is from a physical instrument?
    pub fn is_measured(&self) -> (r: bool)
        ensures
            r == (*self is Instrument),
    {
        match self {
            MeasurementSource::Instrument { .. } => true,
            _ => false,
        }
    }

    /// Is from a model/calculation?
    pub fn is_computed(&self) -> (r: bool)
        ensures
            r == (*self is Model || *self is Calculated || *self is NeuralCorrection),
    {
        match self {
            MeasurementSource::Model { .. } | MeasurementSource::Calculated { .. }
            | MeasurementSource::NeuralCorrection { .. } => true,
            _ => false,
        }
    }
}

impl Default for MeasurementSource {
    fn default() -> (r: Self)
        ensures
            r is Unknown,
    {
        MeasurementSource::Unknown
    }
}

} // verus!
