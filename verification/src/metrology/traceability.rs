//! Traceability chains: the audit trail of how each measurement was
//! obtained, with its calibration reference and metadata. Floating-point
//! figures (a neural correction's magnitude and share, a reference's
//! uncertainty) are held as `f64` bit patterns.
use vstd::prelude::*;

use crate::decimal::{decimal, decimal_string, push_decimal};
use crate::material_fingerprint::current_timestamp;
use crate::metrology::measurement::MeasurementId;

verus! {

/// Metadata for the chain.
#[derive(Debug, Clone)]
pub struct ChainMetadata {
    /// Chain creation time.
    pub created_at: u64,
    /// Last modification time.
    pub modified_at: u64,
    /// Chain version.
    pub version: u32,
    /// Description.
    pub description: Option<String>,
}

impl Default for ChainMetadata {
    fn default() -> (r: Self)
        ensures
            r.created_at == 0,
            r.modified_at == 0,
            r.version == 0,
            r.description is None,
    {
        ChainMetadata { created_at: 0, modified_at: 0, version: 0, description: None }
    }
}

/// A nanosecond timestamp shown as whole seconds since the epoch.
pub open spec fn epoch_seconds_text(ns: u64) -> Seq<char> {
    decimal((ns / 1_000_000_000) as nat) + " (epoch seconds)"@
}

/// Format timestamp for display: `<seconds> (epoch seconds)`.
pub fn format_timestamp(ns: u64) -> (r: String)
    ensures
        r@ == epoch_seconds_text(ns),
{
    let secs = ns / 1_000_000_000;
    let mut s = String::new();
    push_decimal(&mut s, secs);
    s.append(" (epoch seconds)");
    s
}

/// Operation type in the traceability chain.
#[derive(Debug, Clone)]
pub enum TraceabilityOperation {
    /// Direct measurement from instrument.
    DirectMeasurement { instrument: String, method: String },
    /// Calibration against reference.
    Calibration { reference: String, certificate_id: Option<String> },
    /// Interpolation between points.
    Interpolation { method: String },
    /// Model-based prediction.
    ModelPrediction { model_name: String, model_version: String },
    /// Neural network correction (magnitude and share as `f64` bit patterns).
    NeuralCorrection { magnitude_bits: u64, share_bits: u64 },
    /// Aggregation of multiple sources.
    Aggregation { method: String, source_count: usize },
    /// Unit conversion.
    UnitConversion { from_unit: String, to_unit: String },
    /// Error propagation.
    ErrorPropagation { method: String },
    /// Manual entry or correction.
    ManualEntry { operator: String, reason: String },
}

/// Category name of each operation.
pub open spec fn operation_category(op: TraceabilityOperation) -> Seq<char> {
    match op {
        TraceabilityOperation::DirectMeasurement { .. } => "measurement"@,
        TraceabilityOperation::Calibration { .. } => "calibration"@,
        TraceabilityOperation::Interpolation { .. } => "interpolation"@,
        TraceabilityOperation::ModelPrediction { .. } => "model"@,
        TraceabilityOperation::NeuralCorrection { .. } => "neural"@,
        TraceabilityOperation::Aggregation { .. } => "aggregation"@,
        TraceabilityOperation::UnitConversion { .. } => "conversion"@,
        TraceabilityOperation::ErrorPropagation { .. } => "propagation"@,
        TraceabilityOperation::ManualEntry { .. } => "manual"@,
    }
}

/// Operations that compute rather than observe.
pub open spec fn operation_computational(op: TraceabilityOperation) -> bool {
    ||| op is Interpolation
    ||| op is ModelPrediction
    ||| op is NeuralCorrection
    ||| op is ErrorPropagation
}

/// The description of an operation; a neural correction's figures are
/// written as the given texts.
pub open spec fn operation_text(
    op: TraceabilityOperation,
    magnitude: Seq<char>,
    share_percent: Seq<char>,
) -> Seq<char> {
    match op {
        TraceabilityOperation::DirectMeasurement { instrument, method } => "Measured with "@
            + instrument@ + " ("@ + method@ + ")"@,
        TraceabilityOperation::Calibration { reference, .. } => "Calibrated against "@
            + reference@,
        TraceabilityOperation::Interpolation { method } => "Interpolated using "@ + method@,
        TraceabilityOperation::ModelPrediction { model_name, model_version } => "Predicted by "@
            + model_name@ + " v"@ + model_version@,
        TraceabilityOperation::NeuralCorrection { .. } => "Neural correction: "@ + magnitude
            + " ("@ + share_percent + "% share)"@,
        TraceabilityOperation::Aggregation { method, source_count } => "Aggregated "@ + decimal(
            source_count as nat,
        ) + " sources using "@ + method@,
        TraceabilityOperation::UnitConversion { from_unit, to_unit } => "Converted "@ + from_unit@
            + " -> "@ + to_unit@,
        TraceabilityOperation::ErrorPropagation { method } => "Error propagated via "@ + method@,
        TraceabilityOperation::ManualEntry { operator, reason } => "Manual entry by "@ + operator@
            + ": "@ + reason@,
    }
}

fn concat2(a: &str, b: &str) -> (r: String)
    ensures
        r@ == a@ + b@,
{
    let mut s = a.to_owned();
    s.append(b);
    s
}

impl TraceabilityOperation {
    /// Create direct measurement operation.
    pub fn measurement(instrument: &str, method: &str) -> (r: Self)
        ensures
            r matches TraceabilityOperation::DirectMeasurement { instrument: i, method: m } && i@
                == instrument@ && m@ == method@,
    {
        TraceabilityOperation::DirectMeasurement {
            instrument: instrument.to_owned(),
            method: method.to_owned(),
        }
    }

    /// Create calibration operation.
    pub fn calibration(reference: &str) -> (r: Self)
        ensures
            r matches TraceabilityOperation::Calibration { reference: rf, certificate_id: c } && rf@
                == reference@ && c is None,
    {
        TraceabilityOperation::Calibration { reference: reference.to_owned(), certificate_id: None }
    }

    /// Create interpolation operation.
    pub fn interpolation(method: &str) -> (r: Self)
        ensures
            r matches TraceabilityOperation::Interpolation { method: m } && m@ == method@,
    {
        TraceabilityOperation::Interpolation { method: method.to_owned() }
    }

    /// Create model prediction operation.
    pub fn model(name: &str, version: &str) -> (r: Self)
        ensures
            r matches TraceabilityOperation::ModelPrediction { model_name: n, model_version: v }
                && n@ == name@ && v@ == version@,
    {
        TraceabilityOperation::ModelPrediction {
            model_name: name.to_owned(),
            model_version: version.to_owned(),
        }
    }

    /// Create neural correction operation (figures as `f64` bit patterns).
    pub fn neural(magnitude_bits: u64, share_bits: u64) -> (r: Self)
        ensures
            r == (TraceabilityOperation::NeuralCorrection { magnitude_bits, share_bits }),
    {
        TraceabilityOperation::NeuralCorrection { magnitude_bits, share_bits }
    }

    /// Create aggregation operation.
    pub fn aggregation(method: &str, count: usize) -> (r: Self)
        ensures
            r matches TraceabilityOperation::Aggregation { method: m, source_count: c } && m@
                == method@ && c == count,
    {
        TraceabilityOperation::Aggregation { method: method.to_owned(), source_count: count }
    }

    /// Get operation category.
    pub fn category(&self) -> (r: &'static str)
        ensures
            r@ == operation_category(*self),
    {
        match self {
            TraceabilityOperation::DirectMeasurement { .. } => "measurement",
            TraceabilityOperation::Calibration { .. } => "calibration",
            TraceabilityOperation::Interpolation { .. } => "interpolation",
            TraceabilityOperation::ModelPrediction { .. } => "model",
            TraceabilityOperation::NeuralCorrection { .. } => "neural",
            TraceabilityOperation::Aggregation { .. } => "aggregation",
            TraceabilityOperation::UnitConversion { .. } => "conversion",
            TraceabilityOperation::ErrorPropagation { .. } => "propagation",
            TraceabilityOperation::ManualEntry { .. } => "manual",
        }
    }

    /// Is this a computational operation?
    pub fn is_computational(&self) -> (r: bool)
        ensures
            r == operation_computational(*self),
    {
        match self {
            TraceabilityOperation::Interpolation { .. }
            | TraceabilityOperation::ModelPrediction { .. }
            | TraceabilityOperation::NeuralCorrection { .. }
            | TraceabilityOperation::ErrorPropagation { .. } => true,
            _ => false,
        }
    }

    /// Is this a neural operation?
    pub fn is_neural(&self) -> (r: bool)
        ensures
            r == (*self is NeuralCorrection),
    {
        match self {
            TraceabilityOperation::NeuralCorrection { .. } => true,
            _ => false,
        }
    }

    /// Human-readable description. A neural correction's magnitude (four
    /// decimals) and share (in percent, one decimal) are floating-point
    /// figures, passed in already written; other operations ignore them.
    pub fn to_display_string(&self, magnitude: &str, share_percent: &str) -> (r: String)
        ensures
            r@ == operation_text(*self, magnitude@, share_percent@),
    {
        match self {
            TraceabilityOperation::DirectMeasurement { instrument, method } => {
                let mut s = concat2("Measured with ", instrument.as_str());
                s.append(" (");
                s.append(method.as_str());
                s.append(")");
                s
            },
            TraceabilityOperation::Calibration { reference, .. } => {
                concat2("Calibrated against ", reference.as_str())
            },
            TraceabilityOperation::Interpolation { method } => {
                concat2("Interpolated using ", method.as_str())
            },
            TraceabilityOperation::ModelPrediction { model_name, model_version } => {
                let mut s = concat2("Predicted by ", model_name.as_str());
                s.append(" v");
                s.append(model_version.as_str());
                s
            },
            TraceabilityOperation::NeuralCorrection { .. } => {
                let mut s = concat2("Neural correction: ", magnitude);
                s.append(" (");
                s.append(share_percent);
                s.append("% share)");
                s
            },
            TraceabilityOperation::Aggregation { method, source_count } => {
                let mut s = "Aggregated ".to_owned();
                push_decimal(&mut s, *source_count as u64);
                s.append(" sources using ");
                s.append(method.as_str());
                s
            },
            TraceabilityOperation::UnitConversion { from_unit, to_unit } => {
                let mut s = concat2("Converted ", from_unit.as_str());
                s.append(" -> ");
                s.append(to_unit.as_str());
                s
            },
            TraceabilityOperation::ErrorPropagation { method } => {
                concat2("Error propagated via ", method.as_str())
            },
            TraceabilityOperation::ManualEntry { operator, reason } => {
                let mut s = concat2("Manual entry by ", operator.as_str());
                s.append(": ");
                s.append(reason.as_str());
                s
            },
        }
    }
}

/// Single entry in the traceability chain.
#[derive(Debug, Clone)]
pub struct TraceabilityEntry {
    /// Unique step ID.
    pub step_id: u32,
    /// Operation performed.
    pub operation: TraceabilityOperation,
    /// Input measurement IDs.
    pub input_measurements: Vec<MeasurementId>,
    /// Output measurement ID.
    pub output_measurement: MeasurementId,
    /// Timestamp (nanoseconds since epoch).
    pub timestamp: u64,
    /// Operator or system identifier.
    pub operator: String,
    /// Additional notes.
    pub notes: Option<String>,
}

impl TraceabilityEntry {
    /// Create new entry, stamped with the current time, by operator
    /// `system`.
    pub fn new(
        step_id: u32,
        operation: TraceabilityOperation,
        inputs: Vec<MeasurementId>,
        output: MeasurementId,
    ) -> (r: Self)
        ensures
            r.step_id == step_id,
            r.operation == operation,
            r.input_measurements == inputs,
            r.output_measurement == output,
            r.operator@ == "system"@,
            r.notes is None,
    {
        TraceabilityEntry {
            step_id,
            operation,
            input_measurements: inputs,
            output_measurement: output,
            timestamp: current_timestamp(),
            operator: "system".to_owned(),
            notes: None,
        }
    }

    /// Set operator.
    pub fn with_operator(self, operator: &str) -> (r: Self)
        ensures
            r.operator@ == operator@,
            r.step_id == self.step_id,
            r.operation == self.operation,
            r.input_measurements == self.input_measurements,
            r.output_measurement == self.output_measurement,
            r.timestamp == self.timestamp,
            r.notes == self.notes,
    {
        let mut e = self;
        e.operator = operator.to_owned();
        e
    }

    /// Add notes.
    pub fn with_notes(self, notes: &str) -> (r: Self)
        ensures
            r.notes matches Some(n) && n@ == notes@,
            r.step_id == self.step_id,
            r.operation == self.operation,
            r.input_measurements == self.input_measurements,
            r.output_measurement == self.output_measurement,
            r.timestamp == self.timestamp,
            r.operator == self.operator,
    {
        let mut e = self;
        e.notes = Some(notes.to_owned());
        e
    }

    /// Set timestamp.
    pub fn with_timestamp(self, timestamp: u64) -> (r: Self)
        ensures
            r.timestamp == timestamp,
            r.step_id == self.step_id,
            r.operation == self.operation,
            r.input_measurements == self.input_measurements,
            r.output_measurement == self.output_measurement,
            r.operator == self.operator,
            r.notes == self.notes,
    {
        let mut e = self;
        e.timestamp = timestamp;
        e
    }
}

/// Nanoseconds in a day.
pub const NS_PER_DAY: u64 = 86_400_000_000_000;

/// Reference to a calibration standard.
#[derive(Debug, Clone)]
pub struct CalibrationReference {
    /// Standard name.
    pub name: String,
    /// Certificate number.
    pub certificate_id: Option<String>,
    /// Issuing laboratory.
    pub laboratory: String,
    /// Calibration date (nanoseconds since epoch).
    pub date: u64,
    /// Validity period (days).
    pub validity_days: u32,
    /// Uncertainty of the reference (as an `f64` bit pattern).
    pub uncertainty_bits: u64,
}

/// Truncating integer division (rounds toward zero), as Rust's `/` on
/// signed integers.
pub open spec fn div_toward_zero(a: int, b: int) -> int {
    if a >= 0 {
        a / b
    } else {
        -((-a) / b)
    }
}

impl CalibrationReference {
    /// When the calibration stops being valid (nanoseconds since epoch).
    pub open spec fn expiry(&self) -> int {
        self.date + self.validity_days * NS_PER_DAY
    }

    /// Create new calibration reference, dated now, valid for 365 days, with
    /// zero uncertainty.
    pub fn new(name: &str, laboratory: &str) -> (r: Self)
        ensures
            r.name@ == name@,
            r.laboratory@ == laboratory@,
            r.certificate_id is None,
            r.validity_days == 365,
            r.uncertainty_bits == 0,
    {
        CalibrationReference {
            name: name.to_owned(),
            certificate_id: None,
            laboratory: laboratory.to_owned(),
            date: current_timestamp(),
            validity_days: 365,
            uncertainty_bits: 0,
        }
    }

    /// Set certificate ID.
    pub fn with_certificate(self, id: &str) -> (r: Self)
        ensures
            r.certificate_id matches Some(c) && c@ == id@,
            r.name == self.name,
            r.laboratory == self.laboratory,
            r.date == self.date,
            r.validity_days == self.validity_days,
            r.uncertainty_bits == self.uncertainty_bits,
    {
        let mut c = self;
        c.certificate_id = Some(id.to_owned());
        c
    }

    /// Set uncertainty (as an `f64` bit pattern).
    pub fn with_uncertainty(self, uncertainty_bits: u64) -> (r: Self)
        ensures
            r.uncertainty_bits == uncertainty_bits,
            r.name == self.name,
            r.certificate_id == self.certificate_id,
            r.laboratory == self.laboratory,
            r.date == self.date,
            r.validity_days == self.validity_days,
    {
        let mut c = self;
        c.uncertainty_bits = uncertainty_bits;
        c
    }

    /// Set validity period.
    pub fn with_validity(self, days: u32) -> (r: Self)
        ensures
            r.validity_days == days,
            r.name == self.name,
            r.certificate_id == self.certificate_id,
            r.laboratory == self.laboratory,
            r.date == self.date,
            r.uncertainty_bits == self.uncertainty_bits,
    {
        let mut c = self;
        c.validity_days = days;
        c
    }

    /// Valid at time `now`: before the expiry.
    pub open spec fn valid_at(&self, now: int) -> bool {
        now < self.expiry()
    }

    /// Whether the calibration is valid at time `now`: before its expiry.
    pub fn is_valid_at(&self, now: u64) -> (r: bool)
        requires
            self.expiry() <= u64::MAX,
        ensures
            r == (now < self.expiry()),
    {
        assert(self.validity_days * NS_PER_DAY <= self.expiry()) by (nonlinear_arith)
            requires
                self.expiry() == self.date + self.validity_days * NS_PER_DAY,
                self.date >= 0,
        ;
        let validity_ns = (self.validity_days as u64) * NS_PER_DAY;
        now < self.date + validity_ns
    }

    /// Check if calibration is still valid, by the clock (`is_valid_at`
    /// the current time); a reference that expires at the epoch never is.
    /// Which time the clock gives is not stated.
    pub fn is_valid(&self) -> (r: bool)
        requires
            self.expiry() <= u64::MAX,
        ensures
            exists|now: u64| r == #[trigger] self.valid_at(now as int),
            self.expiry() == 0 ==> !r,
    {
        let now = current_timestamp();
        let r = self.is_valid_at(now);
        assert(r == self.valid_at(now as int));
        r
    }

    /// Whole days from `now` until expiry (negative once expired), rounded
    /// toward zero.
    pub fn days_until_expiry_at(&self, now: u64) -> (r: i64)
        requires
            self.expiry() <= i64::MAX,
            now <= i64::MAX,
        ensures
            r == div_toward_zero(self.expiry() - now, NS_PER_DAY as int),
    {
        assert(self.validity_days * NS_PER_DAY <= self.expiry()) by (nonlinear_arith)
            requires
                self.expiry() == self.date + self.validity_days * NS_PER_DAY,
                self.date >= 0,
        ;
        let expiry = self.date + (self.validity_days as u64) * NS_PER_DAY;
        let e = expiry as i64;
        let n = now as i64;
        let diff = e - n;
        let day = NS_PER_DAY as i64;
        if diff >= 0 {
            diff / day
        } else {
            let q = (-diff) / day;
            -q
        }
    }

    /// Days until expiration, by the clock (`days_until_expiry_at` the
    /// current time, a time past `i64::MAX` nanoseconds counting as that):
    /// between the days from `i64::MAX` nanoseconds to expiry and the days
    /// from the epoch to expiry. Which time the clock gives is not stated.
    pub fn days_until_expiry(&self) -> (r: i64)
        requires
            self.expiry() <= i64::MAX,
        ensures
            div_toward_zero(self.expiry() - i64::MAX, NS_PER_DAY as int) <= r,
            r <= div_toward_zero(self.expiry(), NS_PER_DAY as int),
    {
        let now = current_timestamp();
        let n = if now > i64::MAX as u64 { i64::MAX as u64 } else { now };
        self.days_until_expiry_at(n)
    }
}

/// Complete traceability chain for audit.
#[derive(Debug, Clone)]
pub struct TraceabilityChain {
    /// Chain entries in order.
    pub entries: Vec<TraceabilityEntry>,
    /// Root calibration reference.
    pub root_calibration: Option<CalibrationReference>,
    /// Chain metadata.
    pub metadata: ChainMetadata,
}

/// Entries are numbered by position: step `k` is entry `k - 1`.
pub open spec fn steps_numbered(es: Seq<TraceabilityEntry>) -> bool {
    forall|i: int| 0 <= i < es.len() ==> #[trigger] es[i].step_id == i + 1
}

/// The entry is a direct measurement.
pub open spec fn is_measurement_step(e: TraceabilityEntry) -> bool {
    e.operation is DirectMeasurement
}

/// The entry is a model prediction.
pub open spec fn is_model_step(e: TraceabilityEntry) -> bool {
    e.operation is ModelPrediction
}

/// The entry is a neural correction.
pub open spec fn is_neural_step(e: TraceabilityEntry) -> bool {
    e.operation is NeuralCorrection
}

/// How many entries satisfy `pred`.
pub open spec fn count_steps(es: Seq<TraceabilityEntry>, pred: spec_fn(TraceabilityEntry) -> bool) -> nat
    decreases es.len(),
{
    if es.len() == 0 {
        0
    } else {
        count_steps(es.drop_last(), pred) + if pred(es.last()) {
            1nat
        } else {
            0nat
        }
    }
}

/// Each step count counts entries by their operation alone: appending an
/// entry raises the measurement count exactly when it is a direct
/// measurement, the model count exactly when it is a model prediction and
/// the neural count exactly when it is a neural correction; any other
/// operation (an interpolation, a calibration, ...) leaves all three as they
/// were.
pub proof fn lemma_step_counts_push(es: Seq<TraceabilityEntry>, e: TraceabilityEntry)
    ensures
        count_steps(es.push(e), |x: TraceabilityEntry| is_measurement_step(x)) == count_steps(
            es,
            |x: TraceabilityEntry| is_measurement_step(x),
        ) + if e.operation is DirectMeasurement {
            1nat
        } else {
            0nat
        },
        count_steps(es.push(e), |x: TraceabilityEntry| is_model_step(x)) == count_steps(
            es,
            |x: TraceabilityEntry| is_model_step(x),
        ) + if e.operation is ModelPrediction {
            1nat
        } else {
            0nat
        },
        count_steps(es.push(e), |x: TraceabilityEntry| is_neural_step(x)) == count_steps(
            es,
            |x: TraceabilityEntry| is_neural_step(x),
        ) + if e.operation is NeuralCorrection {
            1nat
        } else {
            0nat
        },
{
    assert(es.push(e).drop_last() =~= es);
    assert(es.push(e).last() == e);
}

/// Summary of chain contents (the neural share total, a floating-point sum,
/// is not part of it).
#[derive(Debug, Clone)]
pub struct ChainSummary {
    /// Total number of steps.
    pub total_steps: usize,
    /// Number of direct measurements.
    pub measurement_steps: usize,
    /// Number of model predictions.
    pub model_steps: usize,
    /// Number of neural corrections.
    pub neural_steps: usize,
    /// Has root calibration.
    pub has_calibration: bool,
    /// Calibration is valid.
    pub calibration_valid: bool,
}

/// There is a root calibration, and it is valid at time `now`.
pub open spec fn calibration_valid_at(c: Option<CalibrationReference>, now: int) -> bool {
    c matches Some(cal) && cal.valid_at(now)
}

/// The reference, if any, can be checked against the clock without
/// overflow.
pub open spec fn calibration_checkable(c: Option<CalibrationReference>) -> bool {
    match c {
        Some(cal) => cal.expiry() <= u64::MAX,
        None => true,
    }
}

/// Count of the entries of `v` with the given kind.
fn count_kind(v: &Vec<TraceabilityEntry>, kind: u8) -> (r: usize)
    requires
        kind < 3,
    ensures
        r == count_steps(
            v@,
            if kind == 0 {
                |e: TraceabilityEntry| is_measurement_step(e)
            } else if kind == 1 {
                |e: TraceabilityEntry| is_model_step(e)
            } else {
                |e: TraceabilityEntry| is_neural_step(e)
            },
        ),
{
    let ghost pred = if kind == 0 {
        |e: TraceabilityEntry| is_measurement_step(e)
    } else if kind == 1 {
        |e: TraceabilityEntry| is_model_step(e)
    } else {
        |e: TraceabilityEntry| is_neural_step(e)
    };
    let mut n: usize = 0;
    let mut i: usize = 0;
    assert(v@.subrange(0, 0) =~= Seq::<TraceabilityEntry>::empty());
    while i < v.len()
        invariant
            i <= v@.len(),
            kind < 3,
            pred == (if kind == 0 {
                |e: TraceabilityEntry| is_measurement_step(e)
            } else if kind == 1 {
                |e: TraceabilityEntry| is_model_step(e)
            } else {
                |e: TraceabilityEntry| is_neural_step(e)
            }),
            n == count_steps(v@.subrange(0, i as int), pred),
            n <= i,
        decreases v@.len() - i,
    {
        let hit = match &v[i].operation {
            TraceabilityOperation::DirectMeasurement { .. } => kind == 0,
            TraceabilityOperation::ModelPrediction { .. } => kind == 1,
            TraceabilityOperation::NeuralCorrection { .. } => kind == 2,
            _ => false,
        };
        proof {
            let pre = v@.subrange(0, i + 1);
            assert(pre.drop_last() =~= v@.subrange(0, i as int));
            assert(pre.last() == v@[i as int]);
            assert(hit == pred(v@[i as int]));
        }
        if hit {
            n = n + 1;
        }
        i = i + 1;
    }
    assert(v@.subrange(0, v@.len() as int) =~= v@);
    n
}

impl TraceabilityChain {
    /// Create new empty chain, created and modified now, version 1.
    pub fn new() -> (r: Self)
        ensures
            r.entries@.len() == 0,
            r.root_calibration is None,
            r.metadata.created_at == r.metadata.modified_at,
            r.metadata.version == 1,
            r.metadata.description is None,
    {
        let now = current_timestamp();
        TraceabilityChain {
            entries: Vec::new(),
            root_calibration: None,
            metadata: ChainMetadata {
                created_at: now,
                modified_at: now,
                version: 1,
                description: None,
            },
        }
    }

    /// Create chain with root calibration.
    pub fn with_calibration(calibration: CalibrationReference) -> (r: Self)
        ensures
            r.entries@.len() == 0,
            r.root_calibration == Some(calibration),
            r.metadata.created_at == r.metadata.modified_at,
            r.metadata.version == 1,
            r.metadata.description is None,
    {
        let mut chain = TraceabilityChain::new();
        chain.root_calibration = Some(calibration);
        chain
    }

    /// Add entry to chain, and mark the chain modified now.
    pub fn add_entry(&mut self, entry: TraceabilityEntry)
        ensures
            final(self).entries@ == old(self).entries@.push(entry),
            final(self).root_calibration == old(self).root_calibration,
            final(self).metadata.created_at == old(self).metadata.created_at,
            final(self).metadata.version == old(self).metadata.version,
            final(self).metadata.description == old(self).metadata.description,
    {
        self.entries.push(entry);
        self.metadata.modified_at = current_timestamp();
    }

    /// Get next step ID: one more than the number of entries.
    fn next_step_id(&self) -> (r: u32)
        requires
            self.entries@.len() < u32::MAX,
        ensures
            r == self.entries@.len() + 1,
    {
        self.entries.len() as u32 + 1
    }

    /// Add measurement operation, numbered after the last step.
    pub fn record_measurement(&mut self, instrument: &str, method: &str, output: MeasurementId)
        requires
            old(self).entries@.len() < u32::MAX,
        ensures
            final(self).entries@.len() == old(self).entries@.len() + 1,
            final(self).entries@.drop_last() == old(self).entries@,
            final(self).entries@.last().step_id == old(self).entries@.len() + 1,
            final(self).entries@.last().operation matches TraceabilityOperation::DirectMeasurement {
                instrument: i,
                method: m,
            } && i@ == instrument@ && m@ == method@,
            final(self).entries@.last().input_measurements@.len() == 0,
            final(self).entries@.last().output_measurement == output,
            final(self).root_calibration == old(self).root_calibration,
    {
        let step_id = self.next_step_id();
        let entry = TraceabilityEntry::new(
            step_id,
            TraceabilityOperation::measurement(instrument, method),
            Vec::new(),
            output,
        );
        self.add_entry(entry);
        assert(self.entries@.drop_last() =~= old(self).entries@);
    }

    /// Add model prediction operation, numbered after the last step.
    pub fn record_model_prediction(
        &mut self,
        model: &str,
        version: &str,
        inputs: Vec<MeasurementId>,
        output: MeasurementId,
    )
        requires
            old(self).entries@.len() < u32::MAX,
        ensures
            final(self).entries@.len() == old(self).entries@.len() + 1,
            final(self).entries@.drop_last() == old(self).entries@,
            final(self).entries@.last().step_id == old(self).entries@.len() + 1,
            final(self).entries@.last().operation matches TraceabilityOperation::ModelPrediction {
                model_name: n,
                model_version: v,
            } && n@ == model@ && v@ == version@,
            final(self).entries@.last().input_measurements == inputs,
            final(self).entries@.last().output_measurement == output,
            final(self).root_calibration == old(self).root_calibration,
    {
        let step_id = self.next_step_id();
        let entry = TraceabilityEntry::new(
            step_id,
            TraceabilityOperation::model(model, version),
            inputs,
            output,
        );
        self.add_entry(entry);
        assert(self.entries@.drop_last() =~= old(self).entries@);
    }

    /// Add neural correction operation (figures as `f64` bit patterns),
    /// numbered after the last step.
    pub fn record_neural_correction(
        &mut self,
        magnitude_bits: u64,
        share_bits: u64,
        input: MeasurementId,
        output: MeasurementId,
    )
        requires
            old(self).entries@.len() < u32::MAX,
        ensures
            final(self).entries@.len() == old(self).entries@.len() + 1,
            final(self).entries@.drop_last() == old(self).entries@,
            final(self).entries@.last().step_id == old(self).entries@.len() + 1,
            final(self).entries@.last().operation == (TraceabilityOperation::NeuralCorrection {
                magnitude_bits,
                share_bits,
            }),
            final(self).entries@.last().input_measurements@ == seq![input],
            final(self).entries@.last().output_measurement == output,
            final(self).root_calibration == old(self).root_calibration,
    {
        let step_id = self.next_step_id();
        let mut inputs: Vec<MeasurementId> = Vec::new();
        inputs.push(input);
        let entry = TraceabilityEntry::new(
            step_id,
            TraceabilityOperation::neural(magnitude_bits, share_bits),
            inputs,
            output,
        );
        self.add_entry(entry);
        assert(self.entries@.drop_last() =~= old(self).entries@);
    }

    /// Get number of entries.
    pub fn len(&self) -> (r: usize)
        ensures
            r == self.entries@.len(),
    {
        self.entries.len()
    }

    /// Check if empty.
    pub fn is_empty(&self) -> (r: bool)
        ensures
            r == (self.entries@.len() == 0),
    {
        self.entries.len() == 0
    }

    /// Check if chain has root calibration.
    pub fn is_calibrated(&self) -> (r: bool)
        ensures
            r == (self.root_calibration is Some),
    {
        self.root_calibration.is_some()
    }

    /// Check if calibration is valid at time `now`: there is a root
    /// calibration, and it is valid then (`is_valid_at`).
    pub fn is_calibration_valid_at(&self, now: u64) -> (r: bool)
        requires
            calibration_checkable(self.root_calibration),
        ensures
            r == calibration_valid_at(self.root_calibration, now as int),
    {
        match &self.root_calibration {
            Some(c) => c.is_valid_at(now),
            None => false,
        }
    }

    /// Check if calibration is valid: `is_calibration_valid_at` the current
    /// time, which the clock gives and is not stated.
    pub fn is_calibration_valid(&self) -> (r: bool)
        requires
            calibration_checkable(self.root_calibration),
        ensures
            exists|now: u64| r == calibration_valid_at(self.root_calibration, now as int),
            r ==> (self.root_calibration matches Some(c) && c.expiry() > 0),
    {
        let now = current_timestamp();
        let r = self.is_calibration_valid_at(now);
        assert(r == calibration_valid_at(self.root_calibration, now as int));
        r
    }

    /// Count neural operations in chain.
    pub fn neural_operation_count(&self) -> (r: usize)
        ensures
            r == count_steps(self.entries@, |e: TraceabilityEntry| is_neural_step(e)),
    {
        count_kind(&self.entries, 2)
    }

    /// Chain summary at time `now`: step counts, and whether the root
    /// calibration is there and valid then.
    pub fn summary_at(&self, now: u64) -> (r: ChainSummary)
        requires
            calibration_checkable(self.root_calibration),
        ensures
            r.total_steps == self.entries@.len(),
            r.measurement_steps == count_steps(
                self.entries@,
                |e: TraceabilityEntry| is_measurement_step(e),
            ),
            r.model_steps == count_steps(self.entries@, |e: TraceabilityEntry| is_model_step(e)),
            r.neural_steps == count_steps(self.entries@, |e: TraceabilityEntry| is_neural_step(e)),
            r.has_calibration == (self.root_calibration is Some),
            r.calibration_valid == calibration_valid_at(self.root_calibration, now as int),
    {
        ChainSummary {
            total_steps: self.entries.len(),
            measurement_steps: count_kind(&self.entries, 0),
            model_steps: count_kind(&self.entries, 1),
            neural_steps: self.neural_operation_count(),
            has_calibration: self.is_calibrated(),
            calibration_valid: self.is_calibration_valid_at(now),
        }
    }

    /// Get chain summary for reporting: `summary_at` the current time, which
    /// the clock gives and is not stated.
    pub fn summary(&self) -> (r: ChainSummary)
        requires
            calibration_checkable(self.root_calibration),
        ensures
            r.total_steps == self.entries@.len(),
            r.measurement_steps == count_steps(
                self.entries@,
                |e: TraceabilityEntry| is_measurement_step(e),
            ),
            r.model_steps == count_steps(self.entries@, |e: TraceabilityEntry| is_model_step(e)),
            r.neural_steps == count_steps(self.entries@, |e: TraceabilityEntry| is_neural_step(e)),
            r.has_calibration == (self.root_calibration is Some),
            exists|now: u64| r.calibration_valid == calibration_valid_at(self.root_calibration, now as int),
            r.calibration_valid ==> (self.root_calibration matches Some(c) && c.expiry() > 0),
    {
        let now = current_timestamp();
        self.summary_at(now)
    }
}

impl Default for TraceabilityChain {
    fn default() -> (r: Self)
        ensures
            r.entries@.len() == 0,
            r.root_calibration is None,
            r.metadata.created_at == 0,
            r.metadata.modified_at == 0,
            r.metadata.version == 0,
            r.metadata.description is None,
    {
        TraceabilityChain {
            entries: Vec::new(),
            root_calibration: None,
            metadata: ChainMetadata::default(),
        }
    }
}

/// The report lines of the first `k` steps, each on a line of its own:
/// `  [<step>] <description> (<operator>)`, a neural correction's figures
/// written as `mags[i]` and `shares[i]`.
pub open spec fn steps_text(
    es: Seq<TraceabilityEntry>,
    mags: Seq<Seq<char>>,
    shares: Seq<Seq<char>>,
    k: nat,
) -> Seq<char>
    decreases k,
{
    if k == 0 {
        Seq::empty()
    } else {
        let i = k - 1;
        steps_text(es, mags, shares, (k - 1) as nat) + "\n  ["@ + decimal(es[i].step_id as nat)
            + "] "@ + operation_text(es[i].operation, mags[i], shares[i]) + " ("@
            + es[i].operator@ + ")"@
    }
}

/// The root calibration section, its validity shown as `valid`.
pub open spec fn calibration_text(cal: CalibrationReference, valid: bool) -> Seq<char> {
    "\n\nRoot Calibration:"@ + "\n  Standard: "@ + cal.name@ + "\n  Laboratory: "@ + cal.laboratory@
        + match cal.certificate_id {
        Some(c) => "\n  Certificate: "@ + c@,
        None => Seq::empty(),
    } + "\n  Valid: "@ + if valid {
        "Yes"@
    } else {
        "No"@
    }
}

/// The chain report: header, root calibration (if any), steps and summary
/// counts, lines joined by newlines; the neural share total is given as
/// `total_share_percent`.
pub open spec fn report_text(
    c: TraceabilityChain,
    mags: Seq<Seq<char>>,
    shares: Seq<Seq<char>>,
    total_share_percent: Seq<char>,
    valid: bool,
) -> Seq<char> {
    let es = c.entries@;
    "=== Traceability Chain Report ==="@ + "\nCreated: "@ + epoch_seconds_text(
        c.metadata.created_at,
    ) + "\nSteps: "@ + decimal(es.len()) + match c.root_calibration {
        Some(cal) => calibration_text(cal, valid),
        None => Seq::empty(),
    } + "\n\nChain Steps:"@ + steps_text(es, mags, shares, es.len()) + "\n\nSummary:"@
        + "\n  Measurement steps: "@ + decimal(
        count_steps(es, |e: TraceabilityEntry| is_measurement_step(e)),
    ) + "\n  Model steps: "@ + decimal(count_steps(es, |e: TraceabilityEntry| is_model_step(e)))
        + "\n  Neural steps: "@ + decimal(
        count_steps(es, |e: TraceabilityEntry| is_neural_step(e)),
    ) + "\n  Total neural share: "@ + total_share_percent + "%"@
}

/// The views of a list of strings.
pub open spec fn string_views(v: Seq<String>) -> Seq<Seq<char>> {
    Seq::new(v.len(), |i: int| v[i]@)
}

impl TraceabilityChain {
    /// Human-readable report. Floating-point figures come written: for each
    /// entry, the magnitude and share (percent) texts of a neural correction
    /// (ignored for other operations), and the total neural share in
    /// percent. Whether the root calibration is valid is read from the
    /// clock: see `report_at`.
    pub fn report(
        &self,
        magnitudes: &Vec<String>,
        shares: &Vec<String>,
        total_share_percent: &str,
    ) -> (r: String)
        requires
            magnitudes@.len() == self.entries@.len(),
            shares@.len() == self.entries@.len(),
            calibration_checkable(self.root_calibration),
        ensures
            exists|now: u64|
                r@ == report_text(
                    *self,
                    string_views(magnitudes@),
                    string_views(shares@),
                    total_share_percent@,
                    calibration_valid_at(self.root_calibration, now as int),
                ),
    {
        let now = current_timestamp();
        self.report_at(now, magnitudes, shares, total_share_percent)
    }

    /// The report at time `now`, the root calibration shown as valid exactly
    /// when it is valid then.
    pub fn report_at(
        &self,
        now: u64,
        magnitudes: &Vec<String>,
        shares: &Vec<String>,
        total_share_percent: &str,
    ) -> (r: String)
        requires
            magnitudes@.len() == self.entries@.len(),
            shares@.len() == self.entries@.len(),
            calibration_checkable(self.root_calibration),
        ensures
            r@ == report_text(
                *self,
                string_views(magnitudes@),
                string_views(shares@),
                total_share_percent@,
                calibration_valid_at(self.root_calibration, now as int),
            ),
    {
        let ghost mags = string_views(magnitudes@);
        let ghost shs = string_views(shares@);
        let mut s = String::new();
        s.append("=== Traceability Chain Report ===");
        s.append("\nCreated: ");
        let created = format_timestamp(self.metadata.created_at);
        s.append(created.as_str());
        s.append("\nSteps: ");
        let n = decimal_string(self.entries.len() as u64);
        s.append(n.as_str());
        let ghost head = s@;
        let mut valid = false;
        match &self.root_calibration {
            Some(cal) => {
                s.append("\n\nRoot Calibration:");
                s.append("\n  Standard: ");
                s.append(cal.name.as_str());
                s.append("\n  Laboratory: ");
                s.append(cal.laboratory.as_str());
                match &cal.certificate_id {
                    Some(c) => {
                        s.append("\n  Certificate: ");
                        s.append(c.as_str());
                    },
                    None => {},
                }
                s.append("\n  Valid: ");
                valid = cal.is_valid_at(now);
                if valid {
                    s.append("Yes");
                } else {
                    s.append("No");
                }
                proof {
                    assert(s@ =~= head + calibration_text(*cal, valid));
                }
            },
            None => {
                assert(s@ =~= head + Seq::<char>::empty());
            },
        }
        s.append("\n\nChain Steps:");
        let ghost before_steps = s@;
        let mut steps = String::new();
        let mut i: usize = 0;
        while i < self.entries.len()
            invariant
                i <= self.entries@.len(),
                magnitudes@.len() == self.entries@.len(),
                shares@.len() == self.entries@.len(),
                mags == string_views(magnitudes@),
                shs == string_views(shares@),
                steps@ == steps_text(self.entries@, mags, shs, i as nat),
            decreases self.entries@.len() - i,
        {
            let e = &self.entries[i];
            steps.append("\n  [");
            let id = decimal_string(e.step_id as u64);
            steps.append(id.as_str());
            steps.append("] ");
            let text = e.operation.to_display_string(magnitudes[i].as_str(), shares[i].as_str());
            steps.append(text.as_str());
            steps.append(" (");
            steps.append(e.operator.as_str());
            steps.append(")");
            proof {
                assert(mags[i as int] == magnitudes@[i as int]@);
                assert(shs[i as int] == shares@[i as int]@);
                assert(steps@ =~= steps_text(self.entries@, mags, shs, (i + 1) as nat));
            }
            i = i + 1;
        }
        s.append(steps.as_str());
        s.append("\n\nSummary:");
        s.append("\n  Measurement steps: ");
        let m = decimal_string(count_kind(&self.entries, 0) as u64);
        s.append(m.as_str());
        s.append("\n  Model steps: ");
        let md = decimal_string(count_kind(&self.entries, 1) as u64);
        s.append(md.as_str());
        s.append("\n  Neural steps: ");
        let nn = decimal_string(count_kind(&self.entries, 2) as u64);
        s.append(nn.as_str());
        s.append("\n  Total neural share: ");
        s.append(total_share_percent);
        s.append("%");
        proof {
            assert(s@ =~= report_text(*self, mags, shs, total_share_percent@, valid));
        }
        s
    }
}

/// Recording steps keeps them numbered by position: a chain whose steps are
/// numbered `1..=n` has them numbered `1..=n+1` after any `record_*` call.
pub proof fn lemma_record_keeps_numbering(
    before: Seq<TraceabilityEntry>,
    after: Seq<TraceabilityEntry>,
)
    requires
        steps_numbered(before),
        after.len() == before.len() + 1,
        after.drop_last() == before,
        after.last().step_id == before.len() + 1,
    ensures
        steps_numbered(after),
{
    assert forall|i: int| 0 <= i < after.len() implies #[trigger] after[i].step_id == i + 1 by {
        if i < before.len() {
            assert(after[i] == after.drop_last()[i]);
        }
    }
}

/// A recorded step adds one to the count of its kind and leaves the other
/// counts alone.
pub proof fn lemma_count_push(
    es: Seq<TraceabilityEntry>,
    e: TraceabilityEntry,
    pred: spec_fn(TraceabilityEntry) -> bool,
)
    ensures
        count_steps(es.push(e), pred) == count_steps(es, pred) + if pred(e) {
            1nat
        } else {
            0nat
        },
{
    assert(es.push(e).drop_last() =~= es);
}

} // verus!
