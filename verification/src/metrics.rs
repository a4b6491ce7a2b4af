//! The metrics signal: metrics grouped by resource and scope, each a gauge, a sum, a histogram, an
//! exponential histogram or a summary over its data points.
//!
//! Doubles are held by their IEEE 754 bit patterns ([`Double`](crate::double::Double)), which
//! compare and order as the doubles do.

use vstd::prelude::*;
use crate::common::{InstrumentationScope, KeyValue, check_scope, scope_refusal, scope_ok, lemma_scope_refusal_iff};
use crate::double::{Double, double_lt, double_le, less_than, less_or_equal, one_bits, zero_bits};
use crate::error::{Invalid, Refusal, refusal};
use crate::ids::{SpanId, TraceId, all_zero};
use crate::resource::Resource;
use crate::text::{decimal, signed_decimal, push_str, write_decimal, signed_decimal_text};
use crate::trace::{check_group_resource, group_resource_refusal, group_resource_ok, lemma_group_resource_iff};
use crate::validate::{
    Path, field_path, item_path, first_refusal, or_else, matches_refusal, keys_refusal, unique_keys,
    lemma_first_refusal_step, lemma_first_refusal_extends, lemma_take_all,
    law_first_refusal_none_iff_all, distinct_keys, lemma_keys_refusal_iff, lemma_first_refusal_iff,
};

verus! {

/// A metrics payload: the body of an `ExportMetricsServiceRequest`, what `/v1/metrics` receives.
#[derive(Clone, Debug, Default, PartialEq)]
pub struct MetricsData {
    /// The metrics, grouped by the resource that produced them.
    pub resource_metrics: Vec<ResourceMetrics>,
}

/// The metrics of one resource, grouped by instrumentation scope.
#[derive(Clone, Debug, Default, PartialEq)]
pub struct ResourceMetrics {
    /// The resource; absent when no resource information is available.
    pub resource: Option<Resource>,
    /// The metrics, grouped by scope.
    pub scope_metrics: Vec<ScopeMetrics>,
    /// The schema URL of the resource's attributes.
    pub schema_url: String,
}

/// The metrics of one instrumentation scope.
#[derive(Clone, Debug, Default, PartialEq)]
pub struct ScopeMetrics {
    /// The scope; absent is an empty scope.
    pub scope: Option<InstrumentationScope>,
    /// The metrics.
    pub metrics: Vec<Metric>,
    /// The schema URL of the scope's and the metrics' attributes.
    pub schema_url: String,
}

/// One metric: a name, a unit, a description and its data of one of five kinds.
#[derive(Clone, Debug, Default, PartialEq)]
pub struct Metric {
    /// The metric's name; required.
    pub name: String,
    /// What the metric measures, for documentation.
    pub description: String,
    /// The unit, in UCUM form (`ms`, `By`, `1`).
    pub unit: String,
    /// The data: which kind of aggregation and its points. Absent when the payload named none, or
    /// named a kind this crate does not know.
    pub data: Option<MetricData>,
    /// Non-identifying metadata about the metric; keys unique.
    pub metadata: Vec<KeyValue>,
}

/// The data of a metric: the kind of aggregation and its points.
#[derive(Clone, Debug, PartialEq)]
pub enum MetricData {
    /// A value sampled at a point in time.
    Gauge(Gauge),
    /// A sum, monotonic or not, delta or cumulative.
    Sum(Sum),
    /// A histogram over explicit bucket bounds.
    Histogram(Histogram),
    /// A histogram over exponential (base-2 scaled) buckets.
    ExponentialHistogram(ExponentialHistogram),
    /// Quantile values over a population.
    Summary(Summary),
}

/// A value sampled at a point in time: the last value wins, no temporality.
#[derive(Clone, Debug, Default, PartialEq)]
pub struct Gauge {
    /// The points, one per attribute set and time.
    pub data_points: Vec<NumberDataPoint>,
}

/// A sum over a population: a counter when monotonic, an up-down counter otherwise.
#[derive(Clone, Debug, Default, PartialEq)]
pub struct Sum {
    /// The points, one per attribute set and time.
    pub data_points: Vec<NumberDataPoint>,
    /// Whether each point reports the change since the last one or since the start; never
    /// unspecified.
    pub aggregation_temporality: AggregationTemporality,
    /// Whether the sum never decreases.
    pub is_monotonic: bool,
}

/// A histogram over explicit bucket bounds.
#[derive(Clone, Debug, Default, PartialEq)]
pub struct Histogram {
    /// The points, one per attribute set and time.
    pub data_points: Vec<HistogramDataPoint>,
    /// Delta or cumulative; never unspecified.
    pub aggregation_temporality: AggregationTemporality,
}

/// A histogram over exponential buckets: bucket `i` covers `(base^i, base^(i+1)]` with
/// `base = 2^(2^-scale)`.
#[derive(Clone, Debug, Default, PartialEq)]
pub struct ExponentialHistogram {
    /// The points, one per attribute set and time.
    pub data_points: Vec<ExponentialHistogramDataPoint>,
    /// Delta or cumulative; never unspecified.
    pub aggregation_temporality: AggregationTemporality,
}

/// Quantile values over a population, as legacy instrumentation reports them; always cumulative.
#[derive(Clone, Debug, Default, PartialEq)]
pub struct Summary {
    /// The points, one per attribute set and time.
    pub data_points: Vec<SummaryDataPoint>,
}

/// How a point relates to the ones before it; an integer on the wire.
#[derive(Clone, Copy, Debug, Eq, Hash)]
pub enum AggregationTemporality {
    /// Not stated; invalid on a sum or a histogram.
    Unspecified,
    /// Each point reports the change since the previous point.
    Delta,
    /// Each point reports the total since a fixed start time.
    Cumulative,
}

impl PartialEq for AggregationTemporality {
    fn eq(&self, other: &Self) -> (r: bool) {
        self.as_u32() == other.as_u32()
    }
}

impl vstd::std_specs::cmp::PartialEqSpecImpl for AggregationTemporality {
    open spec fn obeys_eq_spec() -> bool {
        true
    }

    open spec fn eq_spec(&self, other: &Self) -> bool {
        *self == *other
    }
}

impl Default for AggregationTemporality {
    /// The protocol's default: unspecified.
    fn default() -> (d: Self)
        ensures
            d == AggregationTemporality::Unspecified,
    {
        AggregationTemporality::Unspecified
    }
}

/// The protocol number of a temporality.
pub open spec fn temporality_number(t: AggregationTemporality) -> u32 {
    match t {
        AggregationTemporality::Unspecified => 0,
        AggregationTemporality::Delta => 1,
        AggregationTemporality::Cumulative => 2,
    }
}

impl AggregationTemporality {
    /// The temporality for its protocol number, if there is one.
    pub fn from_u32(value: u32) -> (r: Option<Self>)
        ensures
            r is Some <==> value <= 2,
            r matches Some(t) ==> temporality_number(t) == value,
    {
        match value {
            0 => Some(AggregationTemporality::Unspecified),
            1 => Some(AggregationTemporality::Delta),
            2 => Some(AggregationTemporality::Cumulative),
            _ => None,
        }
    }

    /// The protocol number of the temporality.
    pub fn as_u32(self) -> (n: u32)
        ensures
            n == temporality_number(self),
    {
        match self {
            AggregationTemporality::Unspecified => 0,
            AggregationTemporality::Delta => 1,
            AggregationTemporality::Cumulative => 2,
        }
    }
}

/// The value of a number point or an exemplar: a double or a 64-bit integer.
#[derive(Clone, Copy, Debug, PartialEq)]
pub enum NumberValue {
    /// A double.
    Double(Double),
    /// A 64-bit signed integer.
    Int(i64),
}

/// One point of a gauge or a sum.
#[derive(Clone, Debug, Default, PartialEq)]
pub struct NumberDataPoint {
    /// The attributes identifying the time series; keys unique.
    pub attributes: Vec<KeyValue>,
    /// The start of the interval the point covers, in nanoseconds since the Unix epoch; zero when
    /// unknown.
    pub start_time_unix_nano: u64,
    /// The end of the interval, in nanoseconds since the Unix epoch.
    pub time_unix_nano: u64,
    /// The value; absent when the payload named none.
    pub value: Option<NumberValue>,
    /// Sampled measurements that contributed to the point.
    pub exemplars: Vec<Exemplar>,
    /// The point's flags; see [`flags::NO_RECORDED_VALUE_MASK`](crate::flags::NO_RECORDED_VALUE_MASK).
    pub flags: u32,
}

/// One point of a histogram over explicit bounds: `bucket_counts` has one entry more than
/// `explicit_bounds`, the last bucket reaching to infinity.
#[derive(Clone, Debug, Default, PartialEq)]
pub struct HistogramDataPoint {
    /// The attributes identifying the time series; keys unique.
    pub attributes: Vec<KeyValue>,
    /// The start of the interval the point covers; zero when unknown.
    pub start_time_unix_nano: u64,
    /// The end of the interval.
    pub time_unix_nano: u64,
    /// How many values the population holds; the sum of the bucket counts.
    pub count: u64,
    /// The sum of the values, when known.
    pub sum: Option<Double>,
    /// The count per bucket; empty, or one entry more than `explicit_bounds`.
    pub bucket_counts: Vec<u64>,
    /// The upper bounds of the buckets, strictly increasing; bucket `i` covers
    /// `(bounds[i-1], bounds[i]]`.
    pub explicit_bounds: Vec<Double>,
    /// Sampled measurements that contributed to the point.
    pub exemplars: Vec<Exemplar>,
    /// The point's flags.
    pub flags: u32,
    /// The smallest value, when known.
    pub min: Option<Double>,
    /// The largest value, when known.
    pub max: Option<Double>,
}

/// One point of an exponential histogram.
#[derive(Clone, Debug, Default, PartialEq)]
pub struct ExponentialHistogramDataPoint {
    /// The attributes identifying the time series; keys unique.
    pub attributes: Vec<KeyValue>,
    /// The start of the interval the point covers; zero when unknown.
    pub start_time_unix_nano: u64,
    /// The end of the interval.
    pub time_unix_nano: u64,
    /// How many values the population holds, the zero bucket included.
    pub count: u64,
    /// The sum of the values, when known.
    pub sum: Option<Double>,
    /// The resolution: bucket bounds grow by `2^(2^-scale)`; between -10 and 20.
    pub scale: i32,
    /// How many values were zero, or within `zero_threshold` of it.
    pub zero_count: u64,
    /// The buckets of the positive values.
    pub positive: Option<Buckets>,
    /// The buckets of the negative values.
    pub negative: Option<Buckets>,
    /// The point's flags.
    pub flags: u32,
    /// Sampled measurements that contributed to the point.
    pub exemplars: Vec<Exemplar>,
    /// The smallest value, when known.
    pub min: Option<Double>,
    /// The largest value, when known.
    pub max: Option<Double>,
    /// The half-width of the zero bucket.
    pub zero_threshold: Double,
}

/// A run of exponential buckets starting at index `offset`.
#[derive(Clone, Debug, Default, PartialEq)]
pub struct Buckets {
    /// The index of the first bucket in `bucket_counts`.
    pub offset: i32,
    /// The count per bucket from `offset` on.
    pub bucket_counts: Vec<u64>,
}

/// One point of a summary.
#[derive(Clone, Debug, Default, PartialEq)]
pub struct SummaryDataPoint {
    /// The attributes identifying the time series; keys unique.
    pub attributes: Vec<KeyValue>,
    /// The start of the interval the point covers; zero when unknown.
    pub start_time_unix_nano: u64,
    /// The end of the interval.
    pub time_unix_nano: u64,
    /// How many values the population holds.
    pub count: u64,
    /// The sum of the values.
    pub sum: Double,
    /// The values at the reported quantiles.
    pub quantile_values: Vec<ValueAtQuantile>,
    /// The point's flags.
    pub flags: u32,
}

/// The value at one quantile of a summary.
#[derive(Clone, Copy, Debug, Default, PartialEq)]
pub struct ValueAtQuantile {
    /// The quantile, between 0 and 1 inclusive.
    pub quantile: Double,
    /// The value at that quantile.
    pub value: Double,
}

/// One sampled measurement, with the trace context it was taken in.
#[derive(Clone, Debug, Default, PartialEq)]
pub struct Exemplar {
    /// The measurement's attributes the aggregation dropped; keys unique.
    pub filtered_attributes: Vec<KeyValue>,
    /// When the measurement was taken, in nanoseconds since the Unix epoch.
    pub time_unix_nano: u64,
    /// The measured value.
    pub value: Option<NumberValue>,
    /// The span active when the measurement was taken, if any.
    pub span_id: Option<SpanId>,
    /// The trace active when the measurement was taken, if any.
    pub trace_id: Option<TraceId>,
}

/// What the rule of a sum's or a histogram's temporality refuses at `at`.
pub open spec fn temporality_refusal(t: AggregationTemporality, at: Seq<char>) -> Option<Refusal> {
    if t == AggregationTemporality::Unspecified {
        Some(refusal(at, "aggregationTemporality is unspecified"@))
    } else {
        None
    }
}

/// What the rules refuse of an exemplar at `at`: a repeated attribute key, then an all-zero trace
/// or span id.
pub open spec fn exemplar_refusal(e: Exemplar, at: Seq<char>) -> Option<Refusal> {
    if keys_refusal(e.filtered_attributes@, at) is Some {
        keys_refusal(e.filtered_attributes@, at)
    } else if e.trace_id matches Some(t) && all_zero(t@) {
        Some(refusal(at, "traceId is all zeros"@))
    } else if e.span_id matches Some(s) && all_zero(s@) {
        Some(refusal(at, "spanId is all zeros"@))
    } else {
        None
    }
}

/// The rule for the exemplars of a point at `at`.
pub open spec fn exemplars_at(at: Seq<char>) -> spec_fn(int, Exemplar) -> Option<Refusal> {
    |i: int, e: Exemplar| exemplar_refusal(e, item_path(at, "exemplars"@, i))
}

/// What the rules refuse of a number point at `at`: a repeated attribute key, then its
/// exemplars.
pub open spec fn number_point_refusal(p: NumberDataPoint, at: Seq<char>) -> Option<Refusal> {
    or_else(keys_refusal(p.attributes@, at), first_refusal(p.exemplars@, exemplars_at(at)))
}

/// The rule for the number points of a gauge or a sum at `at`.
pub open spec fn number_points_at(at: Seq<char>) -> spec_fn(int, NumberDataPoint) -> Option<Refusal> {
    |i: int, p: NumberDataPoint| number_point_refusal(p, item_path(at, "dataPoints"@, i))
}

/// A sum or a histogram needs a temporality other than unspecified.
pub fn check_temporality(temporality: AggregationTemporality, at: &Path) -> (r: Result<(), Invalid>)
    ensures
        matches_refusal(r, temporality_refusal(temporality, at@)),
{
    match temporality {
        AggregationTemporality::Unspecified => Err(at.refuse("aggregationTemporality is unspecified")),
        _ => Ok(()),
    }
}

impl Exemplar {
    /// The rules of an exemplar: unique attribute keys, then non-zero trace and span ids.
    pub fn check(&self, at: &Path) -> (r: Result<(), Invalid>)
        ensures
            matches_refusal(r, exemplar_refusal(*self, at@)),
    {
        let r = unique_keys(self.filtered_attributes.as_slice(), at);
        if r.is_err() {
            return r;
        }
        match &self.trace_id {
            Some(t) => {
                if t.is_zero() {
                    return Err(at.refuse("traceId is all zeros"));
                }
            },
            None => {},
        }
        match &self.span_id {
            Some(s) => {
                if s.is_zero() {
                    return Err(at.refuse("spanId is all zeros"));
                }
            },
            None => {},
        }
        Ok(())
    }
}

/// The rules of the exemplars of a point at `at`: each at `at.exemplars[i]`.
pub fn check_exemplars(exemplars: &[Exemplar], at: &Path) -> (r: Result<(), Invalid>)
    ensures
        matches_refusal(r, first_refusal(exemplars@, exemplars_at(at@))),
{
    let ghost f = exemplars_at(at@);
    let n = exemplars.len();
    for i in 0..n
        invariant
            n == exemplars@.len(),
            f == exemplars_at(at@),
            first_refusal(exemplars@.take(i as int), f) is None,
    {
        proof {
            lemma_first_refusal_step(exemplars@, f, i as int);
        }
        let r = exemplars[i].check(&at.item("exemplars", i));
        if r.is_err() {
            proof {
                lemma_first_refusal_extends(exemplars@, f, i + 1);
            }
            return r;
        }
    }
    proof {
        lemma_take_all(exemplars@);
    }
    Ok(())
}

impl NumberDataPoint {
    /// The rules of a number point: unique attribute keys, then its exemplars.
    pub fn check(&self, at: &Path) -> (r: Result<(), Invalid>)
        ensures
            matches_refusal(r, number_point_refusal(*self, at@)),
    {
        let r = unique_keys(self.attributes.as_slice(), at);
        if r.is_err() {
            return r;
        }
        check_exemplars(self.exemplars.as_slice(), at)
    }
}

/// The rules of the points of a gauge or a sum at `at`: each at `at.dataPoints[i]`.
pub fn check_number_points(points: &[NumberDataPoint], at: &Path) -> (r: Result<(), Invalid>)
    ensures
        matches_refusal(r, first_refusal(points@, number_points_at(at@))),
{
    let ghost f = number_points_at(at@);
    let n = points.len();
    for i in 0..n
        invariant
            n == points@.len(),
            f == number_points_at(at@),
            first_refusal(points@.take(i as int), f) is None,
    {
        proof {
            lemma_first_refusal_step(points@, f, i as int);
        }
        let r = points[i].check(&at.item("dataPoints", i));
        if r.is_err() {
            proof {
                lemma_first_refusal_extends(points@, f, i + 1);
            }
            return r;
        }
    }
    proof {
        lemma_take_all(points@);
    }
    Ok(())
}

/// The temporalities carry the protocol numbers OTLP assigns them: unspecified 0, delta 1,
/// cumulative 2.
pub proof fn law_temporality_protocol_numbers()
    ensures
        temporality_number(AggregationTemporality::Unspecified) == 0,
        temporality_number(AggregationTemporality::Delta) == 1,
        temporality_number(AggregationTemporality::Cumulative) == 2,
{
}

/// The protocol numbers name the temporalities one for one: `from_u32(t.as_u32())` is
/// `Some(t)`.
pub proof fn law_temporality_numbers(t: AggregationTemporality, other: AggregationTemporality)
    ensures
        temporality_number(t) <= 2,
        temporality_number(t) == temporality_number(other) ==> t == other,
{
}

/// The sum of the counts, as an integer (no overflow).
pub open spec fn seq_sum(counts: Seq<u64>) -> int
    decreases counts.len(),
{
    if counts.len() == 0 {
        0
    } else {
        seq_sum(counts.drop_last()) + counts.last()
    }
}

/// The index of the first pair of neighbouring bounds that does not strictly increase (a NaN
/// never compares as increasing).
pub open spec fn first_not_increasing(bounds: Seq<Double>) -> Option<int>
    decreases bounds.len(),
{
    if bounds.len() < 2 {
        None
    } else {
        let before = first_not_increasing(bounds.drop_last());
        if before is Some {
            before
        } else if !double_lt(bounds[bounds.len() - 2].0, bounds[bounds.len() - 1].0) {
            Some(bounds.len() - 2)
        } else {
            None
        }
    }
}

/// What the rule of strictly increasing bounds refuses at `at`: the index of the second bound of
/// the first pair that does not increase.
pub open spec fn increasing_refusal(bounds: Seq<Double>, at: Seq<char>) -> Option<Refusal> {
    match first_not_increasing(bounds) {
        Some(i) => Some(refusal(at, "explicitBounds is not strictly increasing at index "@ + decimal((i + 1) as nat))),
        None => None,
    }
}

/// The message of a histogram whose buckets do not match its bounds.
pub open spec fn bucket_mismatch(buckets: nat, bounds: nat) -> Seq<char> {
    "bucketCounts has "@ + decimal(buckets) + " entries and explicitBounds "@ + decimal(bounds)
        + ": a histogram has one bucket more than bounds"@
}

/// The message of a histogram whose count is not the sum of its buckets.
pub open spec fn count_mismatch(count: u64) -> Seq<char> {
    "count "@ + decimal(count as nat) + " is not the sum of bucketCounts"@
}

/// What the rules refuse of a histogram point at `at`, in order: a repeated attribute key; when
/// it has buckets, one bucket more than bounds and a count that is their sum; bounds that
/// strictly increase; then its exemplars.
pub open spec fn histogram_point_refusal(p: HistogramDataPoint, at: Seq<char>) -> Option<Refusal> {
    let buckets = p.bucket_counts@;
    let bounds = p.explicit_bounds@;
    if keys_refusal(p.attributes@, at) is Some {
        keys_refusal(p.attributes@, at)
    } else if buckets.len() > 0 && buckets.len() != bounds.len() + 1 {
        Some(refusal(at, bucket_mismatch(buckets.len(), bounds.len())))
    } else if buckets.len() > 0 && seq_sum(buckets) != p.count {
        Some(refusal(at, count_mismatch(p.count)))
    } else {
        or_else(increasing_refusal(bounds, at), first_refusal(p.exemplars@, exemplars_at(at)))
    }
}

proof fn lemma_seq_sum_prefix(counts: Seq<u64>, k: int)
    requires
        0 <= k <= counts.len(),
    ensures
        seq_sum(counts.take(k)) <= seq_sum(counts),
    decreases counts.len() - k,
{
    if k == counts.len() {
        assert(counts.take(k) =~= counts);
    } else {
        assert(counts.take(k + 1).drop_last() =~= counts.take(k));
        lemma_seq_sum_prefix(counts, k + 1);
    }
}

/// The sum of the counts, if it fits in 64 bits.
fn bucket_total(counts: &[u64]) -> (r: Option<u64>)
    ensures
        match r {
            Some(t) => t == seq_sum(counts@),
            None => seq_sum(counts@) > u64::MAX,
        },
{
    let n = counts.len();
    let mut total: u64 = 0;
    for i in 0..n
        invariant
            n == counts@.len(),
            total == seq_sum(counts@.take(i as int)),
    {
        assert(counts@.take(i + 1).drop_last() =~= counts@.take(i as int));
        match total.checked_add(counts[i]) {
            Some(t) => {
                total = t;
            },
            None => {
                proof {
                    lemma_seq_sum_prefix(counts@, i + 1);
                }
                return None;
            },
        }
    }
    assert(counts@.take(n as int) =~= counts@);
    Some(total)
}

proof fn lemma_first_not_increasing_extends(bounds: Seq<Double>, k: int)
    requires
        0 <= k <= bounds.len(),
        first_not_increasing(bounds.take(k)) is Some,
    ensures
        first_not_increasing(bounds) == first_not_increasing(bounds.take(k)),
    decreases bounds.len() - k,
{
    if k == bounds.len() {
        assert(bounds.take(k) =~= bounds);
    } else {
        assert(bounds.take(k + 1).drop_last() =~= bounds.take(k));
        lemma_first_not_increasing_extends(bounds, k + 1);
    }
}

/// The bounds of a histogram strictly increase; the first pair that does not is named by the
/// index of its second bound.
pub fn check_increasing(bounds: &[Double], at: &Path) -> (r: Result<(), Invalid>)
    ensures
        matches_refusal(r, increasing_refusal(bounds@, at@)),
{
    let n = bounds.len();
    if n < 2 {
        return Ok(());
    }
    for i in 0..n - 1
        invariant
            n == bounds@.len(),
            n >= 2,
            first_not_increasing(bounds@.take(i + 1)) is None,
    {
        assert(bounds@.take(i + 2).drop_last() =~= bounds@.take(i + 1));
        assert(bounds@.take(i + 2)[i as int] == bounds@[i as int]);
        assert(bounds@.take(i + 2)[i + 1] == bounds@[i + 1]);
        if !less_than(bounds[i].0, bounds[i + 1].0) {
            proof {
                lemma_first_not_increasing_extends(bounds@, i + 2);
            }
            let mut reason = String::new();
            push_str(&mut reason, "explicitBounds is not strictly increasing at index ");
            write_decimal(&mut reason, (i + 1) as u64);
            assert(reason@ =~= "explicitBounds is not strictly increasing at index "@ + decimal((i + 1) as nat));
            return Err(at.refuse(reason.as_str()));
        }
    }
    assert(bounds@.take(n as int) =~= bounds@);
    Ok(())
}

impl HistogramDataPoint {
    /// The rules of a histogram point, in order: unique attribute keys; when it has buckets, one
    /// bucket more than bounds and a count that is their sum; strictly increasing bounds; then
    /// its exemplars.
    pub fn check(&self, at: &Path) -> (r: Result<(), Invalid>)
        ensures
            matches_refusal(r, histogram_point_refusal(*self, at@)),
    {
        let r = unique_keys(self.attributes.as_slice(), at);
        if r.is_err() {
            return r;
        }
        let buckets = self.bucket_counts.len();
        let bounds = self.explicit_bounds.len();
        if buckets > 0 {
            if buckets - 1 != bounds {
                let mut reason = String::new();
                push_str(&mut reason, "bucketCounts has ");
                write_decimal(&mut reason, buckets as u64);
                push_str(&mut reason, " entries and explicitBounds ");
                write_decimal(&mut reason, bounds as u64);
                push_str(&mut reason, ": a histogram has one bucket more than bounds");
                assert(reason@ =~= bucket_mismatch(buckets as nat, bounds as nat));
                return Err(at.refuse(reason.as_str()));
            }
            let total = bucket_total(self.bucket_counts.as_slice());
            let matches = match total {
                Some(t) => t == self.count,
                None => false,
            };
            if !matches {
                let mut reason = String::new();
                push_str(&mut reason, "count ");
                write_decimal(&mut reason, self.count);
                push_str(&mut reason, " is not the sum of bucketCounts");
                assert(reason@ =~= count_mismatch(self.count));
                return Err(at.refuse(reason.as_str()));
            }
        }
        let r = check_increasing(self.explicit_bounds.as_slice(), at);
        if r.is_err() {
            return r;
        }
        check_exemplars(self.exemplars.as_slice(), at)
    }
}

/// The message of a scale outside the protocol's range.
pub open spec fn scale_out_of_range(scale: i32) -> Seq<char> {
    "scale "@ + signed_decimal(scale as int) + " is outside [-10, 20]"@
}

/// What the rules refuse of an exponential histogram point at `at`: a repeated attribute key, a
/// scale outside `[-10, 20]`, then its exemplars.
pub open spec fn exponential_point_refusal(p: ExponentialHistogramDataPoint, at: Seq<char>) -> Option<Refusal> {
    if keys_refusal(p.attributes@, at) is Some {
        keys_refusal(p.attributes@, at)
    } else if p.scale < -10 || p.scale > 20 {
        Some(refusal(at, scale_out_of_range(p.scale)))
    } else {
        first_refusal(p.exemplars@, exemplars_at(at))
    }
}

/// Whether the quantile with these bits lies in `[0, 1]`: `0.0 <= q && q <= 1.0`.
pub open spec fn quantile_in_unit_interval(q: u64) -> bool {
    double_le(zero_bits(), q) && double_le(q, one_bits())
}

/// The refusal of a quantile outside `[0, 1]`, with `shown` for the quantile's display text:
/// `quantile 1.5 is outside [0, 1]`.
pub open spec fn quantile_outside(shown: Seq<char>) -> Seq<char> {
    "quantile "@ + shown + " is outside [0, 1]"@
}

/// The rule for the quantile values of a summary point at `at`: a quantile outside `[0, 1]` is
/// refused at `at.quantileValues[i]`, with the reason `quantile {} is outside [0, 1]` waiting
/// for the quantile's text, which the refusal carries by its bits.
pub open spec fn quantiles_at(at: Seq<char>) -> spec_fn(int, ValueAtQuantile) -> Option<Refusal> {
    |i: int, q: ValueAtQuantile|
        if quantile_in_unit_interval(q.quantile.0) {
            None
        } else {
            Some((item_path(at, "quantileValues"@, i), quantile_outside("{}"@), Some(q.quantile.0)))
        }
}

/// What the rules refuse of a summary point at `at`: a repeated attribute key, then its quantile
/// values.
pub open spec fn summary_point_refusal(p: SummaryDataPoint, at: Seq<char>) -> Option<Refusal> {
    or_else(keys_refusal(p.attributes@, at), first_refusal(p.quantile_values@, quantiles_at(at)))
}

impl ExponentialHistogramDataPoint {
    /// The rules of an exponential histogram point: unique attribute keys, a scale within
    /// `[-10, 20]`, then its exemplars.
    pub fn check(&self, at: &Path) -> (r: Result<(), Invalid>)
        ensures
            matches_refusal(r, exponential_point_refusal(*self, at@)),
    {
        let r = unique_keys(self.attributes.as_slice(), at);
        if r.is_err() {
            return r;
        }
        if self.scale < -10 || self.scale > 20 {
            let mut reason = String::new();
            push_str(&mut reason, "scale ");
            let digits = signed_decimal_text(self.scale as i64);
            push_str(&mut reason, digits.as_str());
            push_str(&mut reason, " is outside [-10, 20]");
            assert(reason@ =~= scale_out_of_range(self.scale));
            return Err(at.refuse(reason.as_str()));
        }
        check_exemplars(self.exemplars.as_slice(), at)
    }
}

impl SummaryDataPoint {
    /// The rules of a summary point: unique attribute keys, then every quantile within `[0, 1]`.
    pub fn check(&self, at: &Path) -> (r: Result<(), Invalid>)
        ensures
            matches_refusal(r, summary_point_refusal(*self, at@)),
    {
        let r = unique_keys(self.attributes.as_slice(), at);
        if r.is_err() {
            return r;
        }
        let ghost f = quantiles_at(at@);
        let n = self.quantile_values.len();
        for i in 0..n
            invariant
                n == self.quantile_values@.len(),
                f == quantiles_at(at@),
                keys_refusal(self.attributes@, at@) is None,
                first_refusal(self.quantile_values@.take(i as int), f) is None,
        {
            proof {
                lemma_first_refusal_step(self.quantile_values@, f, i as int);
            }
            let q = self.quantile_values[i].quantile.0;
            if !(less_or_equal(0, q) && less_or_equal(q, 0x3FF0_0000_0000_0000)) {
                proof {
                    lemma_first_refusal_extends(self.quantile_values@, f, i + 1);
                }
                let template = "quantile {} is outside [0, 1]";
                proof {
                    reveal_strlit("quantile {} is outside [0, 1]");
                    reveal_strlit("quantile ");
                    reveal_strlit("{}");
                    reveal_strlit(" is outside [0, 1]");
                    assert(template@ =~= quantile_outside("{}"@));
                }
                return Err(at.item("quantileValues", i).refuse_value(template, q));
            }
        }
        proof {
            lemma_take_all(self.quantile_values@);
        }
        Ok(())
    }
}

/// The rule for the points of a histogram at `at`.
pub open spec fn histogram_points_at(at: Seq<char>) -> spec_fn(int, HistogramDataPoint) -> Option<Refusal> {
    |i: int, p: HistogramDataPoint| histogram_point_refusal(p, item_path(at, "dataPoints"@, i))
}

/// The rule for the points of a exponential at `at`.
pub open spec fn exponential_points_at(at: Seq<char>) -> spec_fn(int, ExponentialHistogramDataPoint) -> Option<Refusal> {
    |i: int, p: ExponentialHistogramDataPoint| exponential_point_refusal(p, item_path(at, "dataPoints"@, i))
}

/// The rule for the points of a summary at `at`.
pub open spec fn summary_points_at(at: Seq<char>) -> spec_fn(int, SummaryDataPoint) -> Option<Refusal> {
    |i: int, p: SummaryDataPoint| summary_point_refusal(p, item_path(at, "dataPoints"@, i))
}

/// What the rules refuse of the data of a metric at `at`; the data is named by its kind
/// (`at.gauge`, `at.sum`, `at.histogram`, `at.exponentialHistogram`, `at.summary`).
pub open spec fn metric_data_refusal(d: MetricData, at: Seq<char>) -> Option<Refusal> {
    match d {
        MetricData::Gauge(g) => first_refusal(g.data_points@, number_points_at(field_path(at, "gauge"@))),
        MetricData::Sum(s) => or_else(
            temporality_refusal(s.aggregation_temporality, field_path(at, "sum"@)),
            first_refusal(s.data_points@, number_points_at(field_path(at, "sum"@))),
        ),
        MetricData::Histogram(h) => or_else(
            temporality_refusal(h.aggregation_temporality, field_path(at, "histogram"@)),
            first_refusal(h.data_points@, histogram_points_at(field_path(at, "histogram"@))),
        ),
        MetricData::ExponentialHistogram(h) => or_else(
            temporality_refusal(h.aggregation_temporality, field_path(at, "exponentialHistogram"@)),
            first_refusal(h.data_points@, exponential_points_at(field_path(at, "exponentialHistogram"@))),
        ),
        MetricData::Summary(s) => first_refusal(s.data_points@, summary_points_at(field_path(at, "summary"@))),
    }
}

/// What the rules refuse of a metric at `at`: an empty name, a repeated metadata key, then its
/// data.
pub open spec fn metric_refusal(m: Metric, at: Seq<char>) -> Option<Refusal> {
    if m.name@.len() == 0 {
        Some(refusal(at, "a metric needs a name"@))
    } else {
        or_else(
            keys_refusal(m.metadata@, at),
            match m.data {
                Some(d) => metric_data_refusal(d, at),
                None => None,
            },
        )
    }
}

/// The rule for the metrics of a scope group at `at`.
pub open spec fn metrics_at(at: Seq<char>) -> spec_fn(int, Metric) -> Option<Refusal> {
    |i: int, m: Metric| metric_refusal(m, item_path(at, "metrics"@, i))
}

/// What the rules refuse of a scope group of metrics at `at`: its scope, then its metrics.
pub open spec fn scope_metrics_refusal(g: ScopeMetrics, at: Seq<char>) -> Option<Refusal> {
    or_else(scope_refusal(g.scope, at), first_refusal(g.metrics@, metrics_at(at)))
}

/// The rule for the scope groups of a resource group at `at`.
pub open spec fn scope_metrics_at(at: Seq<char>) -> spec_fn(int, ScopeMetrics) -> Option<Refusal> {
    |i: int, g: ScopeMetrics| scope_metrics_refusal(g, item_path(at, "scopeMetrics"@, i))
}

/// What the rules refuse of a resource group of metrics at `at`: its resource, then its scope
/// groups.
pub open spec fn resource_metrics_refusal(g: ResourceMetrics, at: Seq<char>) -> Option<Refusal> {
    or_else(group_resource_refusal(g.resource, at), first_refusal(g.scope_metrics@, scope_metrics_at(at)))
}

/// The rule for the resource groups of a metrics payload.
pub open spec fn resource_metrics_at() -> spec_fn(int, ResourceMetrics) -> Option<Refusal> {
    |i: int, g: ResourceMetrics| resource_metrics_refusal(g, item_path(Seq::empty(), "resourceMetrics"@, i))
}

/// What the rules refuse of a metrics payload: the first refusal of its resource groups, in
/// order.
pub open spec fn metrics_refusal(m: MetricsData) -> Option<Refusal> {
    first_refusal(m.resource_metrics@, resource_metrics_at())
}

/// Whether bounds strictly increase: each is less than the next, as doubles.
pub open spec fn strictly_increasing(bounds: Seq<Double>) -> bool {
    forall|i: int| 0 <= i < bounds.len() - 1 ==> double_lt(#[trigger] bounds[i].0, bounds[i + 1].0)
}

/// Whether an exemplar keeps the rules: distinct attribute keys, and trace and span ids, where
/// present, that are not all zeros.
pub open spec fn exemplar_ok(e: Exemplar) -> bool {
    &&& distinct_keys(e.filtered_attributes@)
    &&& (e.trace_id matches Some(t) ==> !all_zero(t@))
    &&& (e.span_id matches Some(s) ==> !all_zero(s@))
}

/// Whether all exemplars keep their rules.
pub open spec fn exemplars_ok(exemplars: Seq<Exemplar>) -> bool {
    forall|i: int| 0 <= i < exemplars.len() ==> exemplar_ok(#[trigger] exemplars[i])
}

/// Whether a number point keeps the rules: distinct attribute keys and good exemplars.
pub open spec fn number_point_ok(p: NumberDataPoint) -> bool {
    distinct_keys(p.attributes@) && exemplars_ok(p.exemplars@)
}

/// Whether a histogram point keeps the rules: distinct attribute keys; when it has buckets, one
/// bucket more than bounds and a count that is their sum; strictly increasing bounds; and good
/// exemplars.
pub open spec fn histogram_point_ok(p: HistogramDataPoint) -> bool {
    &&& distinct_keys(p.attributes@)
    &&& p.bucket_counts@.len() > 0 ==> p.bucket_counts@.len() == p.explicit_bounds@.len() + 1
    &&& p.bucket_counts@.len() > 0 ==> seq_sum(p.bucket_counts@) == p.count
    &&& strictly_increasing(p.explicit_bounds@)
    &&& exemplars_ok(p.exemplars@)
}

/// Whether an exponential histogram point keeps the rules: distinct attribute keys, a scale
/// within `[-10, 20]`, and good exemplars.
pub open spec fn exponential_point_ok(p: ExponentialHistogramDataPoint) -> bool {
    &&& distinct_keys(p.attributes@)
    &&& -10 <= p.scale <= 20
    &&& exemplars_ok(p.exemplars@)
}

/// Whether a summary point keeps the rules: distinct attribute keys, and every quantile a
/// double `q` with `0.0 <= q <= 1.0`.
pub open spec fn summary_point_ok(p: SummaryDataPoint) -> bool {
    &&& distinct_keys(p.attributes@)
    &&& forall|i: int| 0 <= i < p.quantile_values@.len() ==> {
        let q = (#[trigger] p.quantile_values@[i]).quantile.0;
        double_le(zero_bits(), q) && double_le(q, one_bits())
    }
}

/// Whether the data of a metric keeps the rules: a sum, a histogram and an exponential
/// histogram have a temporality other than unspecified, and every point keeps the rules of its
/// kind.
pub open spec fn metric_data_ok(d: MetricData) -> bool {
    match d {
        MetricData::Gauge(g) => forall|i: int| 0 <= i < g.data_points@.len() ==> number_point_ok(#[trigger] g.data_points@[i]),
        MetricData::Sum(s) => {
            &&& s.aggregation_temporality != AggregationTemporality::Unspecified
            &&& forall|i: int| 0 <= i < s.data_points@.len() ==> number_point_ok(#[trigger] s.data_points@[i])
        },
        MetricData::Histogram(h) => {
            &&& h.aggregation_temporality != AggregationTemporality::Unspecified
            &&& forall|i: int| 0 <= i < h.data_points@.len() ==> histogram_point_ok(#[trigger] h.data_points@[i])
        },
        MetricData::ExponentialHistogram(h) => {
            &&& h.aggregation_temporality != AggregationTemporality::Unspecified
            &&& forall|i: int| 0 <= i < h.data_points@.len() ==> exponential_point_ok(#[trigger] h.data_points@[i])
        },
        MetricData::Summary(s) => forall|i: int| 0 <= i < s.data_points@.len() ==> summary_point_ok(#[trigger] s.data_points@[i]),
    }
}

/// Whether a metric keeps the rules: a name, distinct metadata keys, and data (if any) that
/// keeps its rules.
pub open spec fn metric_ok(m: Metric) -> bool {
    &&& m.name@.len() > 0
    &&& distinct_keys(m.metadata@)
    &&& (m.data matches Some(d) ==> metric_data_ok(d))
}

/// Whether a scope group keeps the rules: its scope and every metric.
pub open spec fn scope_metrics_ok(g: ScopeMetrics) -> bool {
    scope_ok(g.scope) && forall|i: int| 0 <= i < g.metrics@.len() ==> metric_ok(#[trigger] g.metrics@[i])
}

/// Whether a resource group keeps the rules: its resource and every scope group.
pub open spec fn resource_metrics_ok(g: ResourceMetrics) -> bool {
    &&& group_resource_ok(g.resource)
    &&& forall|i: int| 0 <= i < g.scope_metrics@.len() ==> scope_metrics_ok(#[trigger] g.scope_metrics@[i])
}

/// Whether a metrics payload keeps every rule of the protocol, in every part.
pub open spec fn metrics_ok(m: MetricsData) -> bool {
    forall|i: int| 0 <= i < m.resource_metrics@.len() ==> resource_metrics_ok(#[trigger] m.resource_metrics@[i])
}

proof fn lemma_increasing_iff(bounds: Seq<Double>)
    ensures
        first_not_increasing(bounds) is None <==> strictly_increasing(bounds),
    decreases bounds.len(),
{
    if bounds.len() >= 2 {
        let prefix = bounds.drop_last();
        lemma_increasing_iff(prefix);
        let n = bounds.len();
        if first_not_increasing(bounds) is None {
            assert forall|i: int| 0 <= i < n - 1 implies double_lt(#[trigger] bounds[i].0, bounds[i + 1].0) by {
                if i < n - 2 {
                    assert(prefix[i] == bounds[i] && prefix[i + 1] == bounds[i + 1]);
                }
            }
        }
        if strictly_increasing(bounds) {
            assert forall|i: int| 0 <= i < prefix.len() - 1 implies double_lt(#[trigger] prefix[i].0, prefix[i + 1].0) by {
                assert(prefix[i] == bounds[i] && prefix[i + 1] == bounds[i + 1]);
                assert(double_lt(bounds[i].0, bounds[i + 1].0));
            }
            assert(double_lt(bounds[n - 2].0, bounds[n - 1].0));
        }
    }
}

proof fn lemma_exemplars_iff(exemplars: Seq<Exemplar>, at: Seq<char>)
    ensures
        first_refusal(exemplars, exemplars_at(at)) is None <==> exemplars_ok(exemplars),
{
    assert forall|i: int| 0 <= i < exemplars.len() implies
        (#[trigger] exemplars_at(at)(i, exemplars[i]) is None <==> exemplar_ok(exemplars[i])) by {
        lemma_keys_refusal_iff(exemplars[i].filtered_attributes@, item_path(at, "exemplars"@, i));
    }
    lemma_first_refusal_iff(exemplars, exemplars_at(at), |x: Exemplar| exemplar_ok(x));
}

proof fn lemma_number_points_iff(points: Seq<NumberDataPoint>, at: Seq<char>)
    ensures
        first_refusal(points, number_points_at(at)) is None
            <==> forall|i: int| 0 <= i < points.len() ==> number_point_ok(#[trigger] points[i]),
{
    assert forall|i: int| 0 <= i < points.len() implies
        (#[trigger] number_points_at(at)(i, points[i]) is None <==> number_point_ok(points[i])) by {
        let pat = item_path(at, "dataPoints"@, i);
        lemma_keys_refusal_iff(points[i].attributes@, pat);
        lemma_exemplars_iff(points[i].exemplars@, pat);
    }
    lemma_first_refusal_iff(points, number_points_at(at), |x: NumberDataPoint| number_point_ok(x));
}

proof fn lemma_histogram_points_iff(points: Seq<HistogramDataPoint>, at: Seq<char>)
    ensures
        first_refusal(points, histogram_points_at(at)) is None
            <==> forall|i: int| 0 <= i < points.len() ==> histogram_point_ok(#[trigger] points[i]),
{
    assert forall|i: int| 0 <= i < points.len() implies
        (#[trigger] histogram_points_at(at)(i, points[i]) is None <==> histogram_point_ok(points[i])) by {
        let pat = item_path(at, "dataPoints"@, i);
        lemma_keys_refusal_iff(points[i].attributes@, pat);
        lemma_exemplars_iff(points[i].exemplars@, pat);
        lemma_increasing_iff(points[i].explicit_bounds@);
    }
    lemma_first_refusal_iff(points, histogram_points_at(at), |x: HistogramDataPoint| histogram_point_ok(x));
}

proof fn lemma_exponential_points_iff(points: Seq<ExponentialHistogramDataPoint>, at: Seq<char>)
    ensures
        first_refusal(points, exponential_points_at(at)) is None
            <==> forall|i: int| 0 <= i < points.len() ==> exponential_point_ok(#[trigger] points[i]),
{
    assert forall|i: int| 0 <= i < points.len() implies
        (#[trigger] exponential_points_at(at)(i, points[i]) is None <==> exponential_point_ok(points[i])) by {
        let pat = item_path(at, "dataPoints"@, i);
        lemma_keys_refusal_iff(points[i].attributes@, pat);
        lemma_exemplars_iff(points[i].exemplars@, pat);
    }
    lemma_first_refusal_iff(points, exponential_points_at(at), |x: ExponentialHistogramDataPoint| exponential_point_ok(x));
}

proof fn lemma_summary_points_iff(points: Seq<SummaryDataPoint>, at: Seq<char>)
    ensures
        first_refusal(points, summary_points_at(at)) is None
            <==> forall|i: int| 0 <= i < points.len() ==> summary_point_ok(#[trigger] points[i]),
{
    assert forall|i: int| 0 <= i < points.len() implies
        (#[trigger] summary_points_at(at)(i, points[i]) is None <==> summary_point_ok(points[i])) by {
        let p = points[i];
        let pat = item_path(at, "dataPoints"@, i);
        lemma_keys_refusal_iff(p.attributes@, pat);
        law_first_refusal_none_iff_all(p.quantile_values@, quantiles_at(pat));
        if first_refusal(p.quantile_values@, quantiles_at(pat)) is None {
            assert forall|j: int| 0 <= j < p.quantile_values@.len() implies {
                let q = (#[trigger] p.quantile_values@[j]).quantile.0;
                double_le(zero_bits(), q) && double_le(q, one_bits())
            } by {
                assert(quantiles_at(pat)(j, p.quantile_values@[j]) is None);
            }
        }
    }
    lemma_first_refusal_iff(points, summary_points_at(at), |x: SummaryDataPoint| summary_point_ok(x));
}

proof fn lemma_metric_iff(m: Metric, at: Seq<char>)
    ensures
        metric_refusal(m, at) is None <==> metric_ok(m),
{
    lemma_keys_refusal_iff(m.metadata@, at);
    if let Some(d) = m.data {
        match d {
            MetricData::Gauge(g) => lemma_number_points_iff(g.data_points@, field_path(at, "gauge"@)),
            MetricData::Sum(x) => lemma_number_points_iff(x.data_points@, field_path(at, "sum"@)),
            MetricData::Histogram(h) => lemma_histogram_points_iff(h.data_points@, field_path(at, "histogram"@)),
            MetricData::ExponentialHistogram(h) => lemma_exponential_points_iff(h.data_points@, field_path(at, "exponentialHistogram"@)),
            MetricData::Summary(x) => lemma_summary_points_iff(x.data_points@, field_path(at, "summary"@)),
        }
    }
}

proof fn lemma_scope_metrics_iff(g: ScopeMetrics, at: Seq<char>)
    ensures
        scope_metrics_refusal(g, at) is None <==> scope_metrics_ok(g),
{
    lemma_scope_refusal_iff(g.scope, at);
    assert forall|i: int| 0 <= i < g.metrics@.len() implies
        (#[trigger] metrics_at(at)(i, g.metrics@[i]) is None <==> metric_ok(g.metrics@[i])) by {
        lemma_metric_iff(g.metrics@[i], item_path(at, "metrics"@, i));
    }
    lemma_first_refusal_iff(g.metrics@, metrics_at(at), |x: Metric| metric_ok(x));
}

proof fn lemma_resource_metrics_iff(g: ResourceMetrics, at: Seq<char>)
    ensures
        resource_metrics_refusal(g, at) is None <==> resource_metrics_ok(g),
{
    lemma_group_resource_iff(g.resource, at);
    assert forall|i: int| 0 <= i < g.scope_metrics@.len() implies
        (#[trigger] scope_metrics_at(at)(i, g.scope_metrics@[i]) is None <==> scope_metrics_ok(g.scope_metrics@[i])) by {
        lemma_scope_metrics_iff(g.scope_metrics@[i], item_path(at, "scopeMetrics"@, i));
    }
    lemma_first_refusal_iff(g.scope_metrics@, scope_metrics_at(at), |x: ScopeMetrics| scope_metrics_ok(x));
}

/// A metrics payload validates exactly when it keeps every rule: distinct attribute keys on
/// every resource, scope, metric's metadata, point and exemplar; every metric named; a
/// temporality other than unspecified on every sum, histogram and exponential histogram; for a
/// histogram point with buckets, one bucket more than bounds and a count that is their sum;
/// strictly increasing bounds; an exponential scale within `[-10, 20]`; summary quantiles within
/// `[0, 1]`; and exemplar trace and span ids that are not all zeros.
pub proof fn law_metrics_validate_iff_rules_hold(m: MetricsData)
    ensures
        metrics_refusal(m) is None <==> metrics_ok(m),
{
    assert forall|i: int| 0 <= i < m.resource_metrics@.len() implies
        (#[trigger] resource_metrics_at()(i, m.resource_metrics@[i]) is None <==> resource_metrics_ok(m.resource_metrics@[i])) by {
        lemma_resource_metrics_iff(m.resource_metrics@[i], item_path(Seq::empty(), "resourceMetrics"@, i));
    }
    lemma_first_refusal_iff(m.resource_metrics@, resource_metrics_at(), |x: ResourceMetrics| resource_metrics_ok(x));
}

/// The rules of the points of a histogram at `at`: each at `at.dataPoints[i]`.
fn check_histogram_points(points: &Vec<HistogramDataPoint>, at: &Path) -> (r: Result<(), Invalid>)
    ensures
        matches_refusal(r, first_refusal(points@, histogram_points_at(at@))),
{
    let ghost f = histogram_points_at(at@);
    let n = points.len();
    for i in 0..n
        invariant
            n == points@.len(),
            f == histogram_points_at(at@),
            first_refusal(points@.take(i as int), f) is None,
    {
        proof {
            lemma_first_refusal_step(points@, f, i as int);
        }
        let r = points[i].check(&at.item("dataPoints", i));
        if r.is_err() {
            proof {
                lemma_first_refusal_extends(points@, f, i + 1);
            }
            return r;
        }
    }
    proof {
        lemma_take_all(points@);
    }
    Ok(())
}

/// The rules of the points of a exponential at `at`: each at `at.dataPoints[i]`.
fn check_exponential_points(points: &Vec<ExponentialHistogramDataPoint>, at: &Path) -> (r: Result<(), Invalid>)
    ensures
        matches_refusal(r, first_refusal(points@, exponential_points_at(at@))),
{
    let ghost f = exponential_points_at(at@);
    let n = points.len();
    for i in 0..n
        invariant
            n == points@.len(),
            f == exponential_points_at(at@),
            first_refusal(points@.take(i as int), f) is None,
    {
        proof {
            lemma_first_refusal_step(points@, f, i as int);
        }
        let r = points[i].check(&at.item("dataPoints", i));
        if r.is_err() {
            proof {
                lemma_first_refusal_extends(points@, f, i + 1);
            }
            return r;
        }
    }
    proof {
        lemma_take_all(points@);
    }
    Ok(())
}

/// The rules of the points of a summary at `at`: each at `at.dataPoints[i]`.
fn check_summary_points(points: &Vec<SummaryDataPoint>, at: &Path) -> (r: Result<(), Invalid>)
    ensures
        matches_refusal(r, first_refusal(points@, summary_points_at(at@))),
{
    let ghost f = summary_points_at(at@);
    let n = points.len();
    for i in 0..n
        invariant
            n == points@.len(),
            f == summary_points_at(at@),
            first_refusal(points@.take(i as int), f) is None,
    {
        proof {
            lemma_first_refusal_step(points@, f, i as int);
        }
        let r = points[i].check(&at.item("dataPoints", i));
        if r.is_err() {
            proof {
                lemma_first_refusal_extends(points@, f, i + 1);
            }
            return r;
        }
    }
    proof {
        lemma_take_all(points@);
    }
    Ok(())
}

/// The rules of the data of a metric at `at`: the temporality of a sum or a histogram, then
/// each point at `at.<kind>.dataPoints[i]`.
fn check_metric_data(data: &MetricData, at: &Path) -> (r: Result<(), Invalid>)
    ensures
        matches_refusal(r, metric_data_refusal(*data, at@)),
{
    match data {
        MetricData::Gauge(gauge) => {
            let at = at.field("gauge");
            check_number_points(gauge.data_points.as_slice(), &at)
        },
        MetricData::Sum(sum) => {
            let at = at.field("sum");
            let r = check_temporality(sum.aggregation_temporality, &at);
            if r.is_err() {
                return r;
            }
            check_number_points(sum.data_points.as_slice(), &at)
        },
        MetricData::Histogram(histogram) => {
            let at = at.field("histogram");
            let r = check_temporality(histogram.aggregation_temporality, &at);
            if r.is_err() {
                return r;
            }
            check_histogram_points(&histogram.data_points, &at)
        },
        MetricData::ExponentialHistogram(histogram) => {
            let at = at.field("exponentialHistogram");
            let r = check_temporality(histogram.aggregation_temporality, &at);
            if r.is_err() {
                return r;
            }
            check_exponential_points(&histogram.data_points, &at)
        },
        MetricData::Summary(summary) => {
            let at = at.field("summary");
            check_summary_points(&summary.data_points, &at)
        },
    }
}

impl Metric {
    /// The rules of a metric, in order: a name, unique metadata keys, then its data.
    pub fn check(&self, at: &Path) -> (r: Result<(), Invalid>)
        ensures
            matches_refusal(r, metric_refusal(*self, at@)),
    {
        if self.name.as_str().is_empty() {
            return Err(at.refuse("a metric needs a name"));
        }
        let r = unique_keys(self.metadata.as_slice(), at);
        if r.is_err() {
            return r;
        }
        match &self.data {
            Some(data) => check_metric_data(data, at),
            None => Ok(()),
        }
    }
}

impl ScopeMetrics {
    /// The rules of a scope group: its scope's attribute keys, then each metric at
    /// `at.metrics[i]`.
    pub fn check(&self, at: &Path) -> (r: Result<(), Invalid>)
        ensures
            matches_refusal(r, scope_metrics_refusal(*self, at@)),
    {
        let r = check_scope(&self.scope, at);
        if r.is_err() {
            return r;
        }
        let ghost f = metrics_at(at@);
        let n = self.metrics.len();
        for i in 0..n
            invariant
                n == self.metrics@.len(),
                f == metrics_at(at@),
                scope_refusal(self.scope, at@) is None,
                first_refusal(self.metrics@.take(i as int), f) is None,
        {
            proof {
                lemma_first_refusal_step(self.metrics@, f, i as int);
            }
            let r = self.metrics[i].check(&at.item("metrics", i));
            if r.is_err() {
                proof {
                    lemma_first_refusal_extends(self.metrics@, f, i + 1);
                }
                return r;
            }
        }
        proof {
            lemma_take_all(self.metrics@);
        }
        Ok(())
    }
}

impl ResourceMetrics {
    /// The rules of a resource group: its resource at `at.resource`, then each scope group at
    /// `at.scopeMetrics[i]`.
    pub fn check(&self, at: &Path) -> (r: Result<(), Invalid>)
        ensures
            matches_refusal(r, resource_metrics_refusal(*self, at@)),
    {
        let r = check_group_resource(&self.resource, at);
        if r.is_err() {
            return r;
        }
        let ghost f = scope_metrics_at(at@);
        let n = self.scope_metrics.len();
        for i in 0..n
            invariant
                n == self.scope_metrics@.len(),
                f == scope_metrics_at(at@),
                group_resource_refusal(self.resource, at@) is None,
                first_refusal(self.scope_metrics@.take(i as int), f) is None,
        {
            proof {
                lemma_first_refusal_step(self.scope_metrics@, f, i as int);
            }
            let r = self.scope_metrics[i].check(&at.item("scopeMetrics", i));
            if r.is_err() {
                proof {
                    lemma_first_refusal_extends(self.scope_metrics@, f, i + 1);
                }
                return r;
            }
        }
        proof {
            lemma_take_all(self.scope_metrics@);
        }
        Ok(())
    }
}

/// Every histogram point of a payload that validates keeps the histogram rules: a temporality,
/// one bucket more than bounds and a count that is the sum of the buckets (when it has buckets),
/// and strictly increasing bounds.
pub proof fn law_valid_metrics_have_valid_histograms(m: MetricsData, r: int, g: int, k: int, p: int)
    requires
        metrics_refusal(m) is None,
        0 <= r < m.resource_metrics@.len(),
        0 <= g < m.resource_metrics@[r].scope_metrics@.len(),
        0 <= k < m.resource_metrics@[r].scope_metrics@[g].metrics@.len(),
        m.resource_metrics@[r].scope_metrics@[g].metrics@[k].data matches Some(MetricData::Histogram(h))
            && 0 <= p < h.data_points@.len(),
    ensures
        ({
            let h = m.resource_metrics@[r].scope_metrics@[g].metrics@[k].data->0->Histogram_0;
            let point = h.data_points@[p];
            &&& h.aggregation_temporality != AggregationTemporality::Unspecified
            &&& point.bucket_counts@.len() > 0 ==> point.bucket_counts@.len() == point.explicit_bounds@.len() + 1
            &&& point.bucket_counts@.len() > 0 ==> seq_sum(point.bucket_counts@) == point.count
            &&& first_not_increasing(point.explicit_bounds@) is None
        }),
{
    let groups = m.resource_metrics@;
    law_first_refusal_none_iff_all(groups, resource_metrics_at());
    assert(resource_metrics_at()(r, groups[r]) is None);
    let rg = groups[r];
    let at_r = item_path(Seq::empty(), "resourceMetrics"@, r);
    law_first_refusal_none_iff_all(rg.scope_metrics@, scope_metrics_at(at_r));
    assert(scope_metrics_at(at_r)(g, rg.scope_metrics@[g]) is None);
    let sg = rg.scope_metrics@[g];
    let at_g = item_path(at_r, "scopeMetrics"@, g);
    law_first_refusal_none_iff_all(sg.metrics@, metrics_at(at_g));
    assert(metrics_at(at_g)(k, sg.metrics@[k]) is None);
    let metric = sg.metrics@[k];
    let at_m = item_path(at_g, "metrics"@, k);
    let h = metric.data->0->Histogram_0;
    let at_h = field_path(at_m, "histogram"@);
    law_first_refusal_none_iff_all(h.data_points@, histogram_points_at(at_h));
    assert(histogram_points_at(at_h)(p, h.data_points@[p]) is None);
}

impl MetricsData {
    /// The rules of a metrics payload: each resource group at `resourceMetrics[i]`; the first
    /// rule broken is returned with its path.
    pub fn check(&self) -> (r: Result<(), Invalid>)
        ensures
            matches_refusal(r, metrics_refusal(*self)),
    {
        let root = Path::root();
        let ghost f = resource_metrics_at();
        let n = self.resource_metrics.len();
        for i in 0..n
            invariant
                n == self.resource_metrics@.len(),
                f == resource_metrics_at(),
                root@ == Seq::<char>::empty(),
                first_refusal(self.resource_metrics@.take(i as int), f) is None,
        {
            proof {
                lemma_first_refusal_step(self.resource_metrics@, f, i as int);
            }
            let r = self.resource_metrics[i].check(&root.item("resourceMetrics", i));
            if r.is_err() {
                proof {
                    lemma_first_refusal_extends(self.resource_metrics@, f, i + 1);
                }
                return r;
            }
        }
        proof {
            lemma_take_all(self.resource_metrics@);
        }
        Ok(())
    }
}

} // verus!
