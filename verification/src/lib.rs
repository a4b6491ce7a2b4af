//! The signal schema of the observability stack: the typed model of the three signals every
//! exporter, store and dashboard of the suite speaks (a [`Resource`] and an
//! [`InstrumentationScope`] describing who produced the data, [`Span`]s with their events, links
//! and status in [`TracesData`], [`Metric`]s over their data points in [`MetricsData`], and
//! [`LogRecord`]s with a severity, a body and their trace context in [`LogsData`]), the model of
//! the OpenTelemetry protocol.
//!
//! [`Signal::validate`] checks what the protocol calls invalid (a span ending before it starts,
//! an all-zero identifier, a sum without a temporality, a histogram whose buckets do not match
//! its bounds, duplicate attribute keys) and returns an [`Invalid`] naming the path and the
//! rule. The pieces of the OTLP/JSON mapping that are computations on text live here too: hex
//! identifiers ([`TraceId::from_hex`]), base64 bytes ([`base64`]), 64-bit integers as decimal
//! strings ([`wire`]) and integer-only enums (`from_u32`, `as_u32`).
//!
//! Doubles are held by their IEEE 754 bit patterns ([`Double`], from `f64::to_bits`), which
//! compare and order as the doubles do ([`double`]).

pub mod base64;
pub mod text;
pub mod double;
pub mod error;
pub mod validate;
pub mod common;
pub mod ids;
pub mod resource;
pub mod trace;
pub mod logs;
pub mod metrics;
pub mod wire;
pub mod defaults;
pub mod flags;

use vstd::prelude::*;

pub use common::{AnyValue, InstrumentationScope, KeyValue};
pub use defaults::is_default;
pub use double::Double;
pub use error::Invalid;
pub use ids::{SpanId, TraceId};
pub use logs::{LogRecord, LogsData, ResourceLogs, ScopeLogs, Severity, SeverityNumber};
pub use metrics::{
    AggregationTemporality, Buckets, Exemplar, ExponentialHistogram, ExponentialHistogramDataPoint,
    Gauge, Histogram, HistogramDataPoint, Metric, MetricData, MetricsData, NumberDataPoint,
    NumberValue, ResourceMetrics, ScopeMetrics, Sum, Summary, SummaryDataPoint, ValueAtQuantile,
};
pub use resource::Resource;
pub use trace::{
    Event, Link, ResourceSpans, ScopeSpans, Span, SpanKind, Status, StatusCode, TracesData,
};
pub use validate::{Path, unique_keys};

verus! {

/// A payload of one signal.
pub trait Signal: Sized {
    /// The rules of the protocol that the types cannot express; the first one broken is
    /// returned with its path.
    fn validate(&self) -> Result<(), Invalid>;
}

impl Signal for TracesData {
    fn validate(&self) -> (r: Result<(), Invalid>)
        ensures
            validate::matches_refusal(r, trace::traces_refusal(*self)),
    {
        self.check()
    }
}

impl Signal for MetricsData {
    fn validate(&self) -> (r: Result<(), Invalid>)
        ensures
            validate::matches_refusal(r, metrics::metrics_refusal(*self)),
    {
        self.check()
    }
}

impl Signal for LogsData {
    fn validate(&self) -> (r: Result<(), Invalid>)
        ensures
            validate::matches_refusal(r, logs::logs_refusal(*self)),
    {
        self.check()
    }
}

/// The crate's name, as the catalog and the registry know it.
pub const NAME: &'static str = "pub-observe-schema";

/// The crate's version.
pub const VERSION: &'static str = "0.1.0";

} // verus!
