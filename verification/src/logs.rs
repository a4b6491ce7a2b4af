//! The log signal: log records grouped by resource and scope, with a severity, a body and the
//! trace context they belong to.

use vstd::prelude::*;
use crate::common::{AnyValue, InstrumentationScope, KeyValue, check_scope, scope_refusal, scope_ok, lemma_scope_refusal_iff};
use crate::error::{Invalid, Refusal, refusal};
use crate::ids::{SpanId, TraceId, all_zero};
use crate::resource::Resource;
use crate::trace::{check_group_resource, group_resource_refusal, group_resource_ok, lemma_group_resource_iff};
use crate::validate::{
    Path, item_path, first_refusal, or_else, matches_refusal, keys_refusal, unique_keys,
    lemma_first_refusal_step, lemma_first_refusal_extends, lemma_take_all,
    law_first_refusal_none_iff_all, distinct_keys, lemma_keys_refusal_iff, lemma_first_refusal_iff,
};

verus! {

/// A logs payload: the body of an `ExportLogsServiceRequest`, what `/v1/logs` receives.
#[derive(Clone, Debug, Default, PartialEq)]
pub struct LogsData {
    /// The log records, grouped by the resource that produced them.
    pub resource_logs: Vec<ResourceLogs>,
}

/// The log records of one resource, grouped by instrumentation scope.
#[derive(Clone, Debug, Default, PartialEq)]
pub struct ResourceLogs {
    /// The resource; absent when no resource information is available.
    pub resource: Option<Resource>,
    /// The records, grouped by scope.
    pub scope_logs: Vec<ScopeLogs>,
    /// The schema URL of the resource's attributes.
    pub schema_url: String,
}

/// The log records of one instrumentation scope.
#[derive(Clone, Debug, Default, PartialEq)]
pub struct ScopeLogs {
    /// The scope; absent is an empty scope.
    pub scope: Option<InstrumentationScope>,
    /// The records.
    pub log_records: Vec<LogRecord>,
    /// The schema URL of the scope's and the records' attributes.
    pub schema_url: String,
}

/// One log record.
#[derive(Clone, Debug, Default, PartialEq)]
pub struct LogRecord {
    /// When the event the record describes happened, in nanoseconds since the Unix epoch; zero
    /// when unknown.
    pub time_unix_nano: u64,
    /// When the record was observed by the collecting system; the fallback for
    /// [`time_unix_nano`](Self::time_unix_nano).
    pub observed_time_unix_nano: u64,
    /// The normalized severity.
    pub severity_number: SeverityNumber,
    /// The severity as the source spelled it.
    pub severity_text: String,
    /// The body: a string or a structured value; absent when the record has none.
    pub body: Option<AnyValue>,
    /// The record's attributes; keys unique.
    pub attributes: Vec<KeyValue>,
    /// How many attributes the producer dropped.
    pub dropped_attributes_count: u32,
    /// Bits 0–7 the W3C trace flags; the rest reserved.
    pub flags: u32,
    /// The trace the record belongs to, when it was emitted inside one.
    pub trace_id: Option<TraceId>,
    /// The span the record belongs to; needs [`trace_id`](Self::trace_id).
    pub span_id: Option<SpanId>,
    /// The event's name, when the record is an event: a unique identifier of its kind.
    pub event_name: String,
}

/// The normalized severity of a log record: 0 is unspecified, then six levels of four numbers
/// each, 1 (`TRACE`) to 24 (`FATAL4`); an integer on the wire.
#[allow(non_camel_case_types)]
#[derive(Clone, Copy, Debug, Eq, Hash, PartialOrd, Ord)]
pub enum SeverityNumber {
    /// `SEVERITY_NUMBER_UNSPECIFIED`, 0.
    UNSPECIFIED,
    /// `SEVERITY_NUMBER_TRACE`, 1.
    TRACE,
    /// `SEVERITY_NUMBER_TRACE2`, 2.
    TRACE2,
    /// `SEVERITY_NUMBER_TRACE3`, 3.
    TRACE3,
    /// `SEVERITY_NUMBER_TRACE4`, 4.
    TRACE4,
    /// `SEVERITY_NUMBER_DEBUG`, 5.
    DEBUG,
    /// `SEVERITY_NUMBER_DEBUG2`, 6.
    DEBUG2,
    /// `SEVERITY_NUMBER_DEBUG3`, 7.
    DEBUG3,
    /// `SEVERITY_NUMBER_DEBUG4`, 8.
    DEBUG4,
    /// `SEVERITY_NUMBER_INFO`, 9.
    INFO,
    /// `SEVERITY_NUMBER_INFO2`, 10.
    INFO2,
    /// `SEVERITY_NUMBER_INFO3`, 11.
    INFO3,
    /// `SEVERITY_NUMBER_INFO4`, 12.
    INFO4,
    /// `SEVERITY_NUMBER_WARN`, 13.
    WARN,
    /// `SEVERITY_NUMBER_WARN2`, 14.
    WARN2,
    /// `SEVERITY_NUMBER_WARN3`, 15.
    WARN3,
    /// `SEVERITY_NUMBER_WARN4`, 16.
    WARN4,
    /// `SEVERITY_NUMBER_ERROR`, 17.
    ERROR,
    /// `SEVERITY_NUMBER_ERROR2`, 18.
    ERROR2,
    /// `SEVERITY_NUMBER_ERROR3`, 19.
    ERROR3,
    /// `SEVERITY_NUMBER_ERROR4`, 20.
    ERROR4,
    /// `SEVERITY_NUMBER_FATAL`, 21.
    FATAL,
    /// `SEVERITY_NUMBER_FATAL2`, 22.
    FATAL2,
    /// `SEVERITY_NUMBER_FATAL3`, 23.
    FATAL3,
    /// `SEVERITY_NUMBER_FATAL4`, 24.
    FATAL4,
}

impl PartialEq for SeverityNumber {
    fn eq(&self, other: &Self) -> (r: bool) {
        self.as_u8() == other.as_u8()
    }
}

impl vstd::std_specs::cmp::PartialEqSpecImpl for SeverityNumber {
    open spec fn obeys_eq_spec() -> bool {
        true
    }

    open spec fn eq_spec(&self, other: &Self) -> bool {
        *self == *other
    }
}

impl Default for SeverityNumber {
    /// The protocol's default: unspecified, 0.
    fn default() -> (d: Self)
        ensures
            d == SeverityNumber::UNSPECIFIED,
    {
        SeverityNumber::UNSPECIFIED
    }
}

/// The number of a severity.
pub open spec fn severity_value(n: SeverityNumber) -> u8 {
    match n {
        SeverityNumber::UNSPECIFIED => 0,
        SeverityNumber::TRACE => 1,
        SeverityNumber::TRACE2 => 2,
        SeverityNumber::TRACE3 => 3,
        SeverityNumber::TRACE4 => 4,
        SeverityNumber::DEBUG => 5,
        SeverityNumber::DEBUG2 => 6,
        SeverityNumber::DEBUG3 => 7,
        SeverityNumber::DEBUG4 => 8,
        SeverityNumber::INFO => 9,
        SeverityNumber::INFO2 => 10,
        SeverityNumber::INFO3 => 11,
        SeverityNumber::INFO4 => 12,
        SeverityNumber::WARN => 13,
        SeverityNumber::WARN2 => 14,
        SeverityNumber::WARN3 => 15,
        SeverityNumber::WARN4 => 16,
        SeverityNumber::ERROR => 17,
        SeverityNumber::ERROR2 => 18,
        SeverityNumber::ERROR3 => 19,
        SeverityNumber::ERROR4 => 20,
        SeverityNumber::FATAL => 21,
        SeverityNumber::FATAL2 => 22,
        SeverityNumber::FATAL3 => 23,
        SeverityNumber::FATAL4 => 24,
    }
}

/// The six severity levels, each covering four severity numbers.
#[derive(Clone, Copy, Debug, PartialEq, Eq, Hash, PartialOrd, Ord)]
pub enum Severity {
    /// Numbers 1–4: fine-grained debugging.
    Trace,
    /// Numbers 5–8: debugging.
    Debug,
    /// Numbers 9–12: informational.
    Info,
    /// Numbers 13–16: a warning.
    Warn,
    /// Numbers 17–20: an error.
    Error,
    /// Numbers 21–24: a fatal error.
    Fatal,
}

/// The level a severity number falls in: none for 0, then each level covers four numbers.
pub open spec fn level_of(value: u8) -> Option<Severity> {
    if value == 0 {
        None
    } else if value <= 4 {
        Some(Severity::Trace)
    } else if value <= 8 {
        Some(Severity::Debug)
    } else if value <= 12 {
        Some(Severity::Info)
    } else if value <= 16 {
        Some(Severity::Warn)
    } else if value <= 20 {
        Some(Severity::Error)
    } else {
        Some(Severity::Fatal)
    }
}

/// The name of a level in capitals, as the data model spells it.
pub open spec fn level_name(level: Severity) -> Seq<char> {
    match level {
        Severity::Trace => "TRACE"@,
        Severity::Debug => "DEBUG"@,
        Severity::Info => "INFO"@,
        Severity::Warn => "WARN"@,
        Severity::Error => "ERROR"@,
        Severity::Fatal => "FATAL"@,
    }
}

impl SeverityNumber {
    /// The severity for its number, `0..=24`.
    pub fn new(value: u8) -> (r: Option<Self>)
        ensures
            r is Some <==> value <= 24,
            r matches Some(n) ==> severity_value(n) == value,
    {
        match value {
            0 => Some(SeverityNumber::UNSPECIFIED),
            1 => Some(SeverityNumber::TRACE),
            2 => Some(SeverityNumber::TRACE2),
            3 => Some(SeverityNumber::TRACE3),
            4 => Some(SeverityNumber::TRACE4),
            5 => Some(SeverityNumber::DEBUG),
            6 => Some(SeverityNumber::DEBUG2),
            7 => Some(SeverityNumber::DEBUG3),
            8 => Some(SeverityNumber::DEBUG4),
            9 => Some(SeverityNumber::INFO),
            10 => Some(SeverityNumber::INFO2),
            11 => Some(SeverityNumber::INFO3),
            12 => Some(SeverityNumber::INFO4),
            13 => Some(SeverityNumber::WARN),
            14 => Some(SeverityNumber::WARN2),
            15 => Some(SeverityNumber::WARN3),
            16 => Some(SeverityNumber::WARN4),
            17 => Some(SeverityNumber::ERROR),
            18 => Some(SeverityNumber::ERROR2),
            19 => Some(SeverityNumber::ERROR3),
            20 => Some(SeverityNumber::ERROR4),
            21 => Some(SeverityNumber::FATAL),
            22 => Some(SeverityNumber::FATAL2),
            23 => Some(SeverityNumber::FATAL3),
            24 => Some(SeverityNumber::FATAL4),
            _ => None,
        }
    }

    /// The number.
    pub fn as_u8(self) -> (v: u8)
        ensures
            v == severity_value(self),
            v <= 24,
    {
        match self {
            SeverityNumber::UNSPECIFIED => 0,
            SeverityNumber::TRACE => 1,
            SeverityNumber::TRACE2 => 2,
            SeverityNumber::TRACE3 => 3,
            SeverityNumber::TRACE4 => 4,
            SeverityNumber::DEBUG => 5,
            SeverityNumber::DEBUG2 => 6,
            SeverityNumber::DEBUG3 => 7,
            SeverityNumber::DEBUG4 => 8,
            SeverityNumber::INFO => 9,
            SeverityNumber::INFO2 => 10,
            SeverityNumber::INFO3 => 11,
            SeverityNumber::INFO4 => 12,
            SeverityNumber::WARN => 13,
            SeverityNumber::WARN2 => 14,
            SeverityNumber::WARN3 => 15,
            SeverityNumber::WARN4 => 16,
            SeverityNumber::ERROR => 17,
            SeverityNumber::ERROR2 => 18,
            SeverityNumber::ERROR3 => 19,
            SeverityNumber::ERROR4 => 20,
            SeverityNumber::FATAL => 21,
            SeverityNumber::FATAL2 => 22,
            SeverityNumber::FATAL3 => 23,
            SeverityNumber::FATAL4 => 24,
        }
    }

    /// The level the number falls in; none when unspecified.
    pub fn level(self) -> (r: Option<Severity>)
        ensures
            r == level_of(severity_value(self)),
    {
        let v = self.as_u8();
        if v == 0 {
            None
        } else if v <= 4 {
            Some(Severity::Trace)
        } else if v <= 8 {
            Some(Severity::Debug)
        } else if v <= 12 {
            Some(Severity::Info)
        } else if v <= 16 {
            Some(Severity::Warn)
        } else if v <= 20 {
            Some(Severity::Error)
        } else {
            Some(Severity::Fatal)
        }
    }
}

impl Severity {
    /// The level's name in capitals, as the data model spells it.
    pub fn name(self) -> (s: &'static str)
        ensures
            s@ == level_name(self),
    {
        match self {
            Severity::Trace => "TRACE",
            Severity::Debug => "DEBUG",
            Severity::Info => "INFO",
            Severity::Warn => "WARN",
            Severity::Error => "ERROR",
            Severity::Fatal => "FATAL",
        }
    }

    /// The level's name as a string: the same text as [`name`](Self::name).
    pub fn to_string(self) -> (s: String)
        ensures
            s@ == level_name(self),
    {
        self.name().to_owned()
    }
}

/// What the rules refuse of a log record at `at`, in order: an all-zero trace or span id, a span
/// id without a trace id, then a repeated attribute key.
pub open spec fn log_record_refusal(r: LogRecord, at: Seq<char>) -> Option<Refusal> {
    if r.trace_id matches Some(t) && all_zero(t@) {
        Some(refusal(at, "traceId is all zeros"@))
    } else if r.span_id matches Some(s) && all_zero(s@) {
        Some(refusal(at, "spanId is all zeros"@))
    } else if r.span_id is Some && r.trace_id is None {
        Some(refusal(at, "spanId without traceId"@))
    } else {
        keys_refusal(r.attributes@, at)
    }
}

/// The rule for the records of a scope group at `at`.
pub open spec fn log_records_at(at: Seq<char>) -> spec_fn(int, LogRecord) -> Option<Refusal> {
    |i: int, r: LogRecord| log_record_refusal(r, item_path(at, "logRecords"@, i))
}

/// What the rules refuse of a scope group of records at `at`: its scope, then its records.
pub open spec fn scope_logs_refusal(g: ScopeLogs, at: Seq<char>) -> Option<Refusal> {
    or_else(scope_refusal(g.scope, at), first_refusal(g.log_records@, log_records_at(at)))
}

/// The rule for the scope groups of a resource group at `at`.
pub open spec fn scope_logs_at(at: Seq<char>) -> spec_fn(int, ScopeLogs) -> Option<Refusal> {
    |i: int, g: ScopeLogs| scope_logs_refusal(g, item_path(at, "scopeLogs"@, i))
}

/// What the rules refuse of a resource group of records at `at`: its resource, then its scope
/// groups.
pub open spec fn resource_logs_refusal(g: ResourceLogs, at: Seq<char>) -> Option<Refusal> {
    or_else(group_resource_refusal(g.resource, at), first_refusal(g.scope_logs@, scope_logs_at(at)))
}

/// The rule for the resource groups of a logs payload.
pub open spec fn resource_logs_at() -> spec_fn(int, ResourceLogs) -> Option<Refusal> {
    |i: int, g: ResourceLogs| resource_logs_refusal(g, item_path(Seq::empty(), "resourceLogs"@, i))
}

/// What the rules refuse of a logs payload: the first refusal of its resource groups, in order.
pub open spec fn logs_refusal(l: LogsData) -> Option<Refusal> {
    first_refusal(l.resource_logs@, resource_logs_at())
}

/// Whether a log record keeps the rules: trace and span ids, where present, that are not all
/// zeros, a span id only with a trace id, and distinct attribute keys.
pub open spec fn log_record_ok(r: LogRecord) -> bool {
    &&& (r.trace_id matches Some(t) ==> !all_zero(t@))
    &&& (r.span_id matches Some(s) ==> !all_zero(s@))
    &&& (r.span_id is Some ==> r.trace_id is Some)
    &&& distinct_keys(r.attributes@)
}

/// Whether a scope group keeps the rules: its scope and every record.
pub open spec fn scope_logs_ok(g: ScopeLogs) -> bool {
    scope_ok(g.scope) && forall|i: int| 0 <= i < g.log_records@.len() ==> log_record_ok(#[trigger] g.log_records@[i])
}

/// Whether a resource group keeps the rules: its resource and every scope group.
pub open spec fn resource_logs_ok(g: ResourceLogs) -> bool {
    &&& group_resource_ok(g.resource)
    &&& forall|i: int| 0 <= i < g.scope_logs@.len() ==> scope_logs_ok(#[trigger] g.scope_logs@[i])
}

/// Whether a logs payload keeps every rule of the protocol, in every part.
pub open spec fn logs_ok(l: LogsData) -> bool {
    forall|i: int| 0 <= i < l.resource_logs@.len() ==> resource_logs_ok(#[trigger] l.resource_logs@[i])
}

proof fn lemma_scope_logs_iff(g: ScopeLogs, at: Seq<char>)
    ensures
        scope_logs_refusal(g, at) is None <==> scope_logs_ok(g),
{
    lemma_scope_refusal_iff(g.scope, at);
    assert forall|i: int| 0 <= i < g.log_records@.len() implies
        (#[trigger] log_records_at(at)(i, g.log_records@[i]) is None <==> log_record_ok(g.log_records@[i])) by {
        lemma_keys_refusal_iff(g.log_records@[i].attributes@, item_path(at, "logRecords"@, i));
    }
    lemma_first_refusal_iff(g.log_records@, log_records_at(at), |x: LogRecord| log_record_ok(x));
}

proof fn lemma_resource_logs_iff(g: ResourceLogs, at: Seq<char>)
    ensures
        resource_logs_refusal(g, at) is None <==> resource_logs_ok(g),
{
    lemma_group_resource_iff(g.resource, at);
    assert forall|i: int| 0 <= i < g.scope_logs@.len() implies
        (#[trigger] scope_logs_at(at)(i, g.scope_logs@[i]) is None <==> scope_logs_ok(g.scope_logs@[i])) by {
        lemma_scope_logs_iff(g.scope_logs@[i], item_path(at, "scopeLogs"@, i));
    }
    lemma_first_refusal_iff(g.scope_logs@, scope_logs_at(at), |x: ScopeLogs| scope_logs_ok(x));
}

/// A logs payload validates exactly when it keeps every rule: distinct attribute keys on every
/// resource, scope and record; record trace and span ids that are not all zeros; and no span id
/// without a trace id.
pub proof fn law_logs_validate_iff_rules_hold(l: LogsData)
    ensures
        logs_refusal(l) is None <==> logs_ok(l),
{
    assert forall|i: int| 0 <= i < l.resource_logs@.len() implies
        (#[trigger] resource_logs_at()(i, l.resource_logs@[i]) is None <==> resource_logs_ok(l.resource_logs@[i])) by {
        lemma_resource_logs_iff(l.resource_logs@[i], item_path(Seq::empty(), "resourceLogs"@, i));
    }
    lemma_first_refusal_iff(l.resource_logs@, resource_logs_at(), |x: ResourceLogs| resource_logs_ok(x));
}

/// Every record of a payload that validates keeps the record rules: its ids are not all zeros,
/// and a span id comes with a trace id.
pub proof fn law_valid_logs_have_valid_records(l: LogsData, r: int, g: int, k: int)
    requires
        logs_refusal(l) is None,
        0 <= r < l.resource_logs@.len(),
        0 <= g < l.resource_logs@[r].scope_logs@.len(),
        0 <= k < l.resource_logs@[r].scope_logs@[g].log_records@.len(),
    ensures
        ({
            let rec = l.resource_logs@[r].scope_logs@[g].log_records@[k];
            &&& (rec.trace_id matches Some(t) ==> !all_zero(t@))
            &&& (rec.span_id matches Some(s) ==> !all_zero(s@))
            &&& (rec.span_id is Some ==> rec.trace_id is Some)
        }),
{
    let groups = l.resource_logs@;
    law_first_refusal_none_iff_all(groups, resource_logs_at());
    assert(resource_logs_at()(r, groups[r]) is None);
    let rg = groups[r];
    let at_r = item_path(Seq::empty(), "resourceLogs"@, r);
    law_first_refusal_none_iff_all(rg.scope_logs@, scope_logs_at(at_r));
    assert(scope_logs_at(at_r)(g, rg.scope_logs@[g]) is None);
    let sg = rg.scope_logs@[g];
    let at_g = item_path(at_r, "scopeLogs"@, g);
    law_first_refusal_none_iff_all(sg.log_records@, log_records_at(at_g));
    assert(log_records_at(at_g)(k, sg.log_records@[k]) is None);
}

/// The severity numbers carry the numbers of the OpenTelemetry log data model: unspecified 0,
/// then `TRACE` 1 to `TRACE4` 4, `DEBUG` 5 to 8, `INFO` 9 to 12, `WARN` 13 to 16, `ERROR` 17 to
/// 20 and `FATAL` 21 to 24.
pub proof fn law_severity_data_model_numbers()
    ensures
        severity_value(SeverityNumber::UNSPECIFIED) == 0,
        severity_value(SeverityNumber::TRACE) == 1,
        severity_value(SeverityNumber::TRACE2) == 2,
        severity_value(SeverityNumber::TRACE3) == 3,
        severity_value(SeverityNumber::TRACE4) == 4,
        severity_value(SeverityNumber::DEBUG) == 5,
        severity_value(SeverityNumber::DEBUG2) == 6,
        severity_value(SeverityNumber::DEBUG3) == 7,
        severity_value(SeverityNumber::DEBUG4) == 8,
        severity_value(SeverityNumber::INFO) == 9,
        severity_value(SeverityNumber::INFO2) == 10,
        severity_value(SeverityNumber::INFO3) == 11,
        severity_value(SeverityNumber::INFO4) == 12,
        severity_value(SeverityNumber::WARN) == 13,
        severity_value(SeverityNumber::WARN2) == 14,
        severity_value(SeverityNumber::WARN3) == 15,
        severity_value(SeverityNumber::WARN4) == 16,
        severity_value(SeverityNumber::ERROR) == 17,
        severity_value(SeverityNumber::ERROR2) == 18,
        severity_value(SeverityNumber::ERROR3) == 19,
        severity_value(SeverityNumber::ERROR4) == 20,
        severity_value(SeverityNumber::FATAL) == 21,
        severity_value(SeverityNumber::FATAL2) == 22,
        severity_value(SeverityNumber::FATAL3) == 23,
        severity_value(SeverityNumber::FATAL4) == 24,
{
}

/// The six levels in order of severity.
pub open spec fn levels_in_order() -> Seq<Severity> {
    seq![Severity::Trace, Severity::Debug, Severity::Info, Severity::Warn, Severity::Error, Severity::Fatal]
}

/// Each level covers four numbers in order of severity: numbers `4k + 1` to `4k + 4` fall in the
/// `k`-th level (trace, debug, info, warn, error, fatal), and 0 falls in none; the levels are
/// named `TRACE`, `DEBUG`, `INFO`, `WARN`, `ERROR` and `FATAL`.
pub proof fn law_severity_levels(v: u8)
    requires
        v <= 24,
    ensures
        v == 0 ==> level_of(v) is None,
        v > 0 ==> level_of(v) == Some(levels_in_order()[(v - 1) / 4]),
        level_name(Severity::Trace) == "TRACE"@,
        level_name(Severity::Debug) == "DEBUG"@,
        level_name(Severity::Info) == "INFO"@,
        level_name(Severity::Warn) == "WARN"@,
        level_name(Severity::Error) == "ERROR"@,
        level_name(Severity::Fatal) == "FATAL"@,
{
}

/// The severity numbers name the severities one for one: `new(n.as_u8())` is `Some(n)`.
pub proof fn law_severity_numbers(n: SeverityNumber, other: SeverityNumber)
    ensures
        severity_value(n) <= 24,
        severity_value(n) == severity_value(other) ==> n == other,
{
}

/// The six levels cover four numbers each: numbers `4 * k + 1` to `4 * k + 4` share one level,
/// neighbouring runs have different levels, and only 0 has none.
pub proof fn law_levels_cover_four_numbers(a: u8, b: u8)
    requires
        a <= 24,
        b <= 24,
    ensures
        level_of(a) is None <==> a == 0,
        (a > 0 && b > 0) ==> (level_of(a) == level_of(b) <==> (a - 1) / 4 == (b - 1) / 4),
{
}

impl LogRecord {
    /// The rules of a log record: non-zero ids, a span id only with a trace id, then unique
    /// attribute keys.
    pub fn check(&self, at: &Path) -> (r: Result<(), Invalid>)
        ensures
            matches_refusal(r, log_record_refusal(*self, at@)),
    {
        match &self.trace_id {
            Some(t) => {
                if t.is_zero() {
                    return Err(at.refuse("traceId is all zeros"));
                }
            },
            None => {},
        }
        match &self.span_id {
            Some(s) => {
                if s.is_zero() {
                    return Err(at.refuse("spanId is all zeros"));
                }
                if self.trace_id.is_none() {
                    return Err(at.refuse("spanId without traceId"));
                }
            },
            None => {},
        }
        unique_keys(self.attributes.as_slice(), at)
    }
}

impl ScopeLogs {
    /// The rules of a scope group: its scope's attribute keys, then each record at
    /// `at.logRecords[i]`.
    pub fn check(&self, at: &Path) -> (r: Result<(), Invalid>)
        ensures
            matches_refusal(r, scope_logs_refusal(*self, at@)),
    {
        let r = check_scope(&self.scope, at);
        if r.is_err() {
            return r;
        }
        let ghost f = log_records_at(at@);
        let n = self.log_records.len();
        for i in 0..n
            invariant
                n == self.log_records@.len(),
                f == log_records_at(at@),
                scope_refusal(self.scope, at@) is None,
                first_refusal(self.log_records@.take(i as int), f) is None,
        {
            proof {
                lemma_first_refusal_step(self.log_records@, f, i as int);
            }
            let r = self.log_records[i].check(&at.item("logRecords", i));
            if r.is_err() {
                proof {
                    lemma_first_refusal_extends(self.log_records@, f, i + 1);
                }
                return r;
            }
        }
        proof {
            lemma_take_all(self.log_records@);
        }
        Ok(())
    }
}

impl ResourceLogs {
    /// The rules of a resource group: its resource at `at.resource`, then each scope group at
    /// `at.scopeLogs[i]`.
    pub fn check(&self, at: &Path) -> (r: Result<(), Invalid>)
        ensures
            matches_refusal(r, resource_logs_refusal(*self, at@)),
    {
        let r = check_group_resource(&self.resource, at);
        if r.is_err() {
            return r;
        }
        let ghost f = scope_logs_at(at@);
        let n = self.scope_logs.len();
        for i in 0..n
            invariant
                n == self.scope_logs@.len(),
                f == scope_logs_at(at@),
                group_resource_refusal(self.resource, at@) is None,
                first_refusal(self.scope_logs@.take(i as int), f) is None,
        {
            proof {
                lemma_first_refusal_step(self.scope_logs@, f, i as int);
            }
            let r = self.scope_logs[i].check(&at.item("scopeLogs", i));
            if r.is_err() {
                proof {
                    lemma_first_refusal_extends(self.scope_logs@, f, i + 1);
                }
                return r;
            }
        }
        proof {
            lemma_take_all(self.scope_logs@);
        }
        Ok(())
    }
}

impl LogsData {
    /// The rules of a logs payload: each resource group at `resourceLogs[i]`; the first rule
    /// broken is returned with its path.
    pub fn check(&self) -> (r: Result<(), Invalid>)
        ensures
            matches_refusal(r, logs_refusal(*self)),
    {
        let root = Path::root();
        let ghost f = resource_logs_at();
        let n = self.resource_logs.len();
        for i in 0..n
            invariant
                n == self.resource_logs@.len(),
                f == resource_logs_at(),
                root@ == Seq::<char>::empty(),
                first_refusal(self.resource_logs@.take(i as int), f) is None,
        {
            proof {
                lemma_first_refusal_step(self.resource_logs@, f, i as int);
            }
            let r = self.resource_logs[i].check(&root.item("resourceLogs", i));
            if r.is_err() {
                proof {
                    lemma_first_refusal_extends(self.resource_logs@, f, i + 1);
                }
                return r;
            }
        }
        proof {
            lemma_take_all(self.resource_logs@);
        }
        Ok(())
    }
}

} // verus!
