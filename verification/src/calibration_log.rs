//! The calibration log: a bounded record of optimisation runs, newest last,
//! that drops its oldest entry when full.
use vstd::prelude::*;
use std::collections::VecDeque;

use crate::decimal::{decimal, decimal_string};
use crate::hex::{hex_encode, push_char};
use crate::material_fingerprint::{
    current_timestamp, format_timestamp, timestamp_text, MaterialFingerprint, MAX_LOG_ENTRIES,
};

verus! {

/// Entry in calibration log
#[derive(Debug, Clone)]
pub struct CalibrationEntry {
    /// Timestamp of calibration (nanoseconds since the Unix epoch)
    pub timestamp: u64,
    /// Fingerprint before calibration
    pub input_fingerprint: MaterialFingerprint,
    /// Fingerprint after calibration
    pub output_fingerprint: MaterialFingerprint,
    /// Optimizer used
    pub optimizer: String,
    /// Number of iterations
    pub iterations: usize,
    /// Final loss value, as the bit pattern of the `f64` (`f64::to_bits`)
    pub final_loss_bits: u64,
    /// Target dataset name
    pub target_dataset: String,
    /// Parameters that were changed
    pub parameters_changed: Vec<String>,
}

/// The two fingerprints have the same content (hash and schema).
pub open spec fn same_content(a: MaterialFingerprint, b: MaterialFingerprint) -> bool {
    a.hash@ == b.hash@ && a.schema_version == b.schema_version
}

impl CalibrationEntry {
    /// Create new calibration entry, stamped with the current time.
    pub fn new(
        input_fingerprint: MaterialFingerprint,
        output_fingerprint: MaterialFingerprint,
        optimizer: &str,
        iterations: usize,
        final_loss_bits: u64,
        target_dataset: &str,
    ) -> (r: Self)
        ensures
            r.input_fingerprint == input_fingerprint,
            r.output_fingerprint == output_fingerprint,
            r.optimizer@ == optimizer@,
            r.iterations == iterations,
            r.final_loss_bits == final_loss_bits,
            r.target_dataset@ == target_dataset@,
            r.parameters_changed@.len() == 0,
    {
        CalibrationEntry {
            timestamp: current_timestamp(),
            input_fingerprint,
            output_fingerprint,
            optimizer: optimizer.to_owned(),
            iterations,
            final_loss_bits,
            target_dataset: target_dataset.to_owned(),
            parameters_changed: Vec::new(),
        }
    }

    /// Add changed parameter
    pub fn with_changed_param(self, param: &str) -> (r: Self)
        ensures
            r.parameters_changed@.len() == self.parameters_changed@.len() + 1,
            r.parameters_changed@.drop_last() == self.parameters_changed@,
            r.parameters_changed@.last()@ == param@,
            r.timestamp == self.timestamp,
            r.input_fingerprint == self.input_fingerprint,
            r.output_fingerprint == self.output_fingerprint,
            r.optimizer == self.optimizer,
            r.iterations == self.iterations,
            r.final_loss_bits == self.final_loss_bits,
            r.target_dataset == self.target_dataset,
    {
        let mut e = self;
        e.parameters_changed.push(param.to_owned());
        e
    }

    /// Set changed parameters
    pub fn with_changed_params(self, params: Vec<String>) -> (r: Self)
        ensures
            r.parameters_changed == params,
            r.timestamp == self.timestamp,
            r.input_fingerprint == self.input_fingerprint,
            r.output_fingerprint == self.output_fingerprint,
            r.optimizer == self.optimizer,
            r.iterations == self.iterations,
            r.final_loss_bits == self.final_loss_bits,
            r.target_dataset == self.target_dataset,
    {
        let mut e = self;
        e.parameters_changed = params;
        e
    }

    /// Check if material changed: the output's content differs from the
    /// input's.
    pub fn material_changed(&self) -> (r: bool)
        ensures
            r == !same_content(self.input_fingerprint, self.output_fingerprint),
    {
        !self.input_fingerprint.content_equals(&self.output_fingerprint)
    }
}

/// The entries after adding `e` to a log holding `s` with room for `max`:
/// when full, the oldest entry leaves first.
pub open spec fn logged(s: Seq<CalibrationEntry>, max: nat, e: CalibrationEntry) -> Seq<
    CalibrationEntry,
> {
    if s.len() >= max && s.len() > 0 {
        s.drop_first().push(e)
    } else {
        s.push(e)
    }
}

/// The entries after adding each of `adds`, in order, to an empty log with
/// room for `max`.
pub open spec fn log_of(max: nat, adds: Seq<CalibrationEntry>) -> Seq<CalibrationEntry>
    decreases adds.len(),
{
    if adds.len() == 0 {
        Seq::empty()
    } else {
        logged(log_of(max, adds.drop_last()), max, adds.last())
    }
}

/// The entry refers to `fp` by content, as its input or its output.
pub open spec fn mentions(e: CalibrationEntry, fp: MaterialFingerprint) -> bool {
    same_content(e.input_fingerprint, fp) || same_content(e.output_fingerprint, fp)
}

/// The test `mentions(_, fp)`.
pub open spec fn mentions_fp(fp: MaterialFingerprint) -> spec_fn(CalibrationEntry) -> bool {
    |e: CalibrationEntry| mentions(e, fp)
}

/// A lookup by fingerprint keeps exactly the entries that refer to it:
/// every entry whose input or whose output has the fingerprint's content
/// (hash and schema) is kept, and every entry kept has it as its input or
/// its output.
pub proof fn lemma_lookup_exact(entries: Seq<CalibrationEntry>, fp: MaterialFingerprint)
    ensures
        forall|i: int|
            0 <= i < entries.len() && (same_content(#[trigger] entries[i].input_fingerprint, fp)
                || same_content(entries[i].output_fingerprint, fp)) ==> entries.filter(
                mentions_fp(fp),
            ).contains(entries[i]),
        forall|k: int|
            0 <= k < entries.filter(mentions_fp(fp)).len() ==> same_content(
                #[trigger] entries.filter(mentions_fp(fp))[k].input_fingerprint,
                fp,
            ) || same_content(entries.filter(mentions_fp(fp))[k].output_fingerprint, fp),
{
    let pred = mentions_fp(fp);
    assert forall|i: int|
        0 <= i < entries.len() && (same_content(#[trigger] entries[i].input_fingerprint, fp)
            || same_content(entries[i].output_fingerprint, fp)) implies entries.filter(
        pred,
    ).contains(entries[i]) by {
        assert(pred(entries[i]));
        entries.lemma_filter_contains(pred, i);
    }
    assert forall|k: int| 0 <= k < entries.filter(pred).len() implies same_content(
        #[trigger] entries.filter(pred)[k].input_fingerprint,
        fp,
    ) || same_content(entries.filter(pred)[k].output_fingerprint, fp) by {
        entries.lemma_filter_pred(pred, k);
    }
}

/// Calibration log for scientific reproducibility
#[derive(Debug, Clone)]
pub struct CalibrationLog {
    /// Log entries (newest last)
    entries: VecDeque<CalibrationEntry>,
    /// Maximum entries before rotation
    max_entries: usize,
}

impl View for CalibrationLog {
    /// The entries, oldest first, and the capacity.
    type V = (Seq<CalibrationEntry>, nat);

    open spec fn view(&self) -> (Seq<CalibrationEntry>, nat) {
        (self.entry_seq(), self.capacity())
    }
}

impl CalibrationLog {
    /// The entries, oldest first.
    pub closed spec fn entry_seq(&self) -> Seq<CalibrationEntry> {
        self.entries@
    }

    /// The number of entries above which the oldest is dropped.
    pub closed spec fn capacity(&self) -> nat {
        self.max_entries as nat
    }

    /// Create new empty log, holding up to `MAX_LOG_ENTRIES` entries
    pub fn new() -> (r: Self)
        ensures
            r.entry_seq() == Seq::<CalibrationEntry>::empty(),
            r.capacity() == MAX_LOG_ENTRIES,
    {
        CalibrationLog { entries: VecDeque::new(), max_entries: MAX_LOG_ENTRIES }
    }

    /// Create log with custom max entries
    pub fn with_capacity(max_entries: usize) -> (r: Self)
        ensures
            r.entry_seq() == Seq::<CalibrationEntry>::empty(),
            r.capacity() == max_entries,
    {
        CalibrationLog { entries: VecDeque::with_capacity(max_entries), max_entries }
    }

    /// Add entry to log, dropping the oldest one when the log is full
    pub fn add_entry(&mut self, entry: CalibrationEntry)
        ensures
            final(self).entry_seq() == logged(old(self).entry_seq(), old(self).capacity(), entry),
            final(self).capacity() == old(self).capacity(),
    {
        if self.entries.len() >= self.max_entries {
            let _ = self.entries.pop_front();
        }
        self.entries.push_back(entry);
        assert(self.entries@ =~= logged(old(self).entries@, old(self).max_entries as nat, entry));
    }

    /// Get all entries
    pub fn entries(&self) -> (r: &VecDeque<CalibrationEntry>)
        ensures
            r@ == self.entry_seq(),
    {
        &self.entries
    }

    /// Get number of entries
    pub fn len(&self) -> (r: usize)
        ensures
            r == self.entry_seq().len(),
    {
        self.entries.len()
    }

    /// Check if log is empty
    pub fn is_empty(&self) -> (r: bool)
        ensures
            r == (self.entry_seq().len() == 0),
    {
        self.entries.len() == 0
    }

    /// Get entry by index (0 is the oldest)
    pub fn get(&self, index: usize) -> (r: Option<&CalibrationEntry>)
        ensures
            index < self.entry_seq().len() ==> r == Some(&self.entry_seq()[index as int]),
            index >= self.entry_seq().len() ==> r is None,
    {
        if index < self.entries.len() {
            Some(&self.entries[index])
        } else {
            None
        }
    }

    /// Get latest entry
    pub fn latest(&self) -> (r: Option<&CalibrationEntry>)
        ensures
            self.entry_seq().len() > 0 ==> r == Some(&self.entry_seq().last()),
            self.entry_seq().len() == 0 ==> r is None,
    {
        let n = self.entries.len();
        if n > 0 {
            Some(&self.entries[n - 1])
        } else {
            None
        }
    }

    /// Find entries by fingerprint: those whose input or output has its
    /// content, oldest first
    pub fn find_by_fingerprint(&self, fingerprint: &MaterialFingerprint) -> (r: Vec<
        &CalibrationEntry,
    >)
        ensures
            r@.map_values(|e: &CalibrationEntry| *e) == self.entry_seq().filter(
                mentions_fp(*fingerprint),
            ),
            forall|i: int|
                0 <= i < self.entry_seq().len() && (same_content(
                    #[trigger] self.entry_seq()[i].input_fingerprint,
                    *fingerprint,
                ) || same_content(self.entry_seq()[i].output_fingerprint, *fingerprint))
                    ==> r@.map_values(|e: &CalibrationEntry| *e).contains(self.entry_seq()[i]),
            forall|k: int|
                0 <= k < r@.len() ==> same_content(#[trigger] r@[k].input_fingerprint, *fingerprint)
                    || same_content(r@[k].output_fingerprint, *fingerprint),
    {
        let ghost pred = mentions_fp(*fingerprint);
        let mut found: Vec<&CalibrationEntry> = Vec::new();
        let mut i: usize = 0;
        let n = self.entries.len();
        assert(self.entries@.subrange(0, 0) =~= Seq::<CalibrationEntry>::empty());
        proof {
            reveal(Seq::filter);
            assert(found@.map_values(|e: &CalibrationEntry| *e) =~= Seq::<CalibrationEntry>::empty());
        }
        while i < n
            invariant
                n == self.entries@.len(),
                i <= n,
                pred == mentions_fp(*fingerprint),
                found@.map_values(|e: &CalibrationEntry| *e) == self.entries@.subrange(
                    0,
                    i as int,
                ).filter(pred),
            decreases n - i,
        {
            let e = &self.entries[i];
            let hit = e.input_fingerprint.content_equals(fingerprint)
                || e.output_fingerprint.content_equals(fingerprint);
            let ghost before = found@;
            if hit {
                found.push(e);
            }
            proof {
                reveal(Seq::filter);
                let pre = self.entries@.subrange(0, i + 1);
                assert(pre.drop_last() =~= self.entries@.subrange(0, i as int));
                assert(pre.last() == self.entries@[i as int]);
                assert(hit == pred(*e));
                if hit {
                    assert(found@.map_values(|e: &CalibrationEntry| *e) =~= before.map_values(
                        |e: &CalibrationEntry| *e,
                    ).push(*e));
                } else {
                    assert(found@ == before);
                }
            }
            i = i + 1;
        }
        assert(self.entries@.subrange(0, n as int) =~= self.entries@);
        proof {
            lemma_lookup_exact(self.entries@, *fingerprint);
            let vals = found@.map_values(|e: &CalibrationEntry| *e);
            assert forall|k: int| 0 <= k < found@.len() implies same_content(
                #[trigger] found@[k].input_fingerprint,
                *fingerprint,
            ) || same_content(found@[k].output_fingerprint, *fingerprint) by {
                assert(vals[k] == *found@[k]);
            }
        }
        found
    }

    /// Clear log
    pub fn clear(&mut self)
        ensures
            final(self).entry_seq() == Seq::<CalibrationEntry>::empty(),
            final(self).capacity() == old(self).capacity(),
    {
        self.entries.clear();
    }
}

impl Default for CalibrationLog {
    fn default() -> (r: Self)
        ensures
            r.entry_seq() == Seq::<CalibrationEntry>::empty(),
            r.capacity() == MAX_LOG_ENTRIES,
    {
        CalibrationLog::new()
    }
}

/// The JSON object of one entry, its loss written as `loss`, indented as in
/// the log's JSON.
pub open spec fn entry_json(e: CalibrationEntry, loss: Seq<char>) -> Seq<char> {
    "    {\n"@ + "      \"timestamp\": "@ + decimal(e.timestamp as nat) + ",\n"@
        + "      \"input_hash\": \""@ + hex_encode(e.input_fingerprint.hash@) + "\",\n"@
        + "      \"output_hash\": \""@ + hex_encode(e.output_fingerprint.hash@) + "\",\n"@
        + "      \"optimizer\": \""@ + e.optimizer@ + "\",\n"@ + "      \"iterations\": "@
        + decimal(e.iterations as nat) + ",\n"@ + "      \"final_loss\": "@ + loss + ",\n"@
        + "      \"target_dataset\": \""@ + e.target_dataset@ + "\"\n"@ + "    }"@
}

/// The JSON of the first `k` entries of `es`: each object followed by a
/// comma unless it is the last entry of `es`, then a newline.
pub open spec fn entries_json(es: Seq<CalibrationEntry>, losses: Seq<Seq<char>>, k: nat) -> Seq<
    char,
>
    decreases k,
{
    if k == 0 {
        Seq::empty()
    } else {
        let i = k - 1;
        entries_json(es, losses, (k - 1) as nat) + entry_json(es[i], losses[i]) + (if i < es.len()
            - 1 {
            ","@
        } else {
            ""@
        }) + "\n"@
    }
}

/// The whole log as JSON.
pub open spec fn log_json(es: Seq<CalibrationEntry>, losses: Seq<Seq<char>>) -> Seq<char> {
    "{\n  \"calibration_log\": [\n"@ + entries_json(es, losses, es.len()) + "  ]\n}"@
}

/// The log line of one entry, its loss written as `loss`.
pub open spec fn entry_log_line(e: CalibrationEntry, loss: Seq<char>) -> Seq<char> {
    "["@ + timestamp_text(e.timestamp) + "] "@ + hex_encode(e.input_fingerprint.hash@).subrange(
        0,
        8,
    ) + " -> "@ + hex_encode(e.output_fingerprint.hash@).subrange(0, 8) + " | "@ + e.optimizer@
        + " | iters="@ + decimal(e.iterations as nat) + " loss="@ + loss + " | "@
        + e.target_dataset@
}

/// The log lines of the first `k` entries, each ended by a newline.
pub open spec fn log_lines(es: Seq<CalibrationEntry>, losses: Seq<Seq<char>>, k: nat) -> Seq<char>
    decreases k,
{
    if k == 0 {
        Seq::empty()
    } else {
        log_lines(es, losses, (k - 1) as nat) + entry_log_line(es[k - 1], losses[k - 1]) + "\n"@
    }
}

/// The human-readable log: a title, the entry count, then one line per
/// entry.
pub open spec fn log_text(es: Seq<CalibrationEntry>, losses: Seq<Seq<char>>) -> Seq<char> {
    "=== Calibration Log ===\n"@ + "Entries: "@ + decimal(es.len()) + "\n\n"@ + log_lines(
        es,
        losses,
        es.len(),
    )
}

/// The views of a list of strings.
pub open spec fn texts(v: Seq<String>) -> Seq<Seq<char>> {
    Seq::new(v.len(), |i: int| v[i]@)
}

impl CalibrationEntry {
    /// Format as log line; `loss` is the final loss as text (log lines give
    /// it six decimals).
    pub fn to_log_line(&self, loss: &str) -> (r: String)
        ensures
            r@ == entry_log_line(*self, loss@),
    {
        let mut s = String::new();
        push_char(&mut s, '[');
        let ts = format_timestamp(self.timestamp);
        s.append(ts.as_str());
        s.append("] ");
        let a = self.input_fingerprint.short_hash();
        s.append(a.as_str());
        s.append(" -> ");
        let b = self.output_fingerprint.short_hash();
        s.append(b.as_str());
        s.append(" | ");
        s.append(self.optimizer.as_str());
        s.append(" | iters=");
        let it = decimal_string(self.iterations as u64);
        s.append(it.as_str());
        s.append(" loss=");
        s.append(loss);
        s.append(" | ");
        s.append(self.target_dataset.as_str());
        proof {
            reveal_strlit("[");
            assert(s@ =~= entry_log_line(*self, loss@));
        }
        s
    }

    /// The entry's JSON object; `loss` is the final loss as text.
    fn to_json_object(&self, loss: &str) -> (r: String)
        ensures
            r@ == entry_json(*self, loss@),
    {
        let mut s = String::new();
        s.append("    {\n");
        s.append("      \"timestamp\": ");
        let ts = decimal_string(self.timestamp);
        s.append(ts.as_str());
        s.append(",\n");
        s.append("      \"input_hash\": \"");
        let a = self.input_fingerprint.to_hex();
        s.append(a.as_str());
        s.append("\",\n");
        s.append("      \"output_hash\": \"");
        let b = self.output_fingerprint.to_hex();
        s.append(b.as_str());
        s.append("\",\n");
        s.append("      \"optimizer\": \"");
        s.append(self.optimizer.as_str());
        s.append("\",\n");
        s.append("      \"iterations\": ");
        let it = decimal_string(self.iterations as u64);
        s.append(it.as_str());
        s.append(",\n");
        s.append("      \"final_loss\": ");
        s.append(loss);
        s.append(",\n");
        s.append("      \"target_dataset\": \"");
        s.append(self.target_dataset.as_str());
        s.append("\"\n");
        s.append("    }");
        assert(s@ =~= entry_json(*self, loss@));
        s
    }
}

impl CalibrationLog {
    /// Convert to JSON string (simple format, no escaping); `losses[i]` is
    /// the final loss of entry `i` as text.
    pub fn to_json(&self, losses: &Vec<String>) -> (r: String)
        requires
            losses@.len() == self.entry_seq().len(),
        ensures
            r@ == log_json(self.entry_seq(), texts(losses@)),
    {
        let n = self.entries.len();
        let ghost es = self.entries@;
        let ghost ls = texts(losses@);
        let mut body = String::new();
        let mut i: usize = 0;
        while i < n
            invariant
                n == es.len(),
                es == self.entries@,
                ls == texts(losses@),
                losses@.len() == n,
                i <= n,
                body@ == entries_json(es, ls, i as nat),
            decreases n - i,
        {
            let obj = self.entries[i].to_json_object(losses[i].as_str());
            body.append(obj.as_str());
            if i < n - 1 {
                body.append(",");
            }
            body.append("\n");
            proof {
                assert(ls[i as int] == losses@[i as int]@);
                if i < n - 1 {
                    assert(body@ =~= entries_json(es, ls, (i + 1) as nat));
                } else {
                    reveal_strlit("");
                    assert(body@ =~= entries_json(es, ls, (i + 1) as nat));
                }
            }
            i = i + 1;
        }
        let mut json = String::new();
        json.append("{\n  \"calibration_log\": [\n");
        json.append(body.as_str());
        json.append("  ]\n}");
        assert(json@ =~= log_json(es, ls));
        json
    }

    /// Format as human-readable log; `losses[i]` is the final loss of entry
    /// `i` as text.
    pub fn to_log_format(&self, losses: &Vec<String>) -> (r: String)
        requires
            losses@.len() == self.entry_seq().len(),
        ensures
            r@ == log_text(self.entry_seq(), texts(losses@)),
    {
        let n = self.entries.len();
        let ghost es = self.entries@;
        let ghost ls = texts(losses@);
        let mut lines = String::new();
        let mut i: usize = 0;
        while i < n
            invariant
                n == es.len(),
                es == self.entries@,
                ls == texts(losses@),
                losses@.len() == n,
                i <= n,
                lines@ == log_lines(es, ls, i as nat),
            decreases n - i,
        {
            let line = self.entries[i].to_log_line(losses[i].as_str());
            lines.append(line.as_str());
            lines.append("\n");
            proof {
                assert(ls[i as int] == losses@[i as int]@);
                assert(lines@ =~= log_lines(es, ls, (i + 1) as nat));
            }
            i = i + 1;
        }
        let mut log = String::new();
        log.append("=== Calibration Log ===\n");
        log.append("Entries: ");
        let count = decimal_string(n as u64);
        log.append(count.as_str());
        log.append("\n\n");
        log.append(lines.as_str());
        assert(log@ =~= log_text(es, ls));
        log
    }
}

/// A log never outgrows its capacity (or one entry, when the capacity is
/// zero), and the entry just added is the newest.
pub proof fn lemma_logged_bounded(s: Seq<CalibrationEntry>, max: nat, e: CalibrationEntry)
    requires
        s.len() <= max || s.len() <= 1,
    ensures
        logged(s, max, e).len() <= max || logged(s, max, e).len() <= 1,
        logged(s, max, e).last() == e,
{
}

/// Rotation: after any sequence of additions to an empty log with room for
/// `max >= 1` entries, the log holds the last `max` of them (all of them if
/// fewer), oldest first.
pub proof fn lemma_log_keeps_newest(max: nat, adds: Seq<CalibrationEntry>)
    requires
        max >= 1,
    ensures
        log_of(max, adds) == adds.subrange(
            if adds.len() > max { adds.len() - max } else { 0 },
            adds.len() as int,
        ),
    decreases adds.len(),
{
    if adds.len() > 0 {
        let init = adds.drop_last();
        lemma_log_keeps_newest(max, init);
        let n = adds.len() as int;
        let prev_start = if init.len() > max { init.len() - max } else { 0 };
        let start = if adds.len() > max { adds.len() - max } else { 0 };
        let prev = init.subrange(prev_start, init.len() as int);
        if prev.len() >= max && prev.len() > 0 {
            assert(prev.drop_first().push(adds.last()) =~= adds.subrange(start, n));
        } else {
            assert(prev.push(adds.last()) =~= adds.subrange(start, n));
        }
    }
}

} // verus!
