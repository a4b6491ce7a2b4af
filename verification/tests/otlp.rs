//! The validation contract of the schema: the rules of the protocol refuse what it calls
//! invalid and name where.

use pub_observe_schema::{
    AggregationTemporality, Double, Histogram, HistogramDataPoint, Invalid, KeyValue, LogRecord, LogsData,
    Metric, MetricData, MetricsData, NumberDataPoint, NumberValue, Resource, ResourceLogs,
    ResourceMetrics, ResourceSpans, ScopeLogs, ScopeMetrics, ScopeSpans, Signal, Span, SpanId,
    SpanKind, StatusCode, Sum, Summary, SummaryDataPoint, TraceId, TracesData, ValueAtQuantile,
};

fn one_span() -> TracesData {
    let span = Span {
        trace_id: TraceId::new([
            0x5b, 0x8e, 0xff, 0xf7, 0x98, 0x03, 0x81, 0x03, 0xd2, 0x69, 0xb6, 0x33, 0x81, 0x3f,
            0xc6, 0x0c,
        ]),
        span_id: SpanId::new([0xee, 0xe1, 0x9b, 0x7e, 0xc3, 0xc1, 0xb1, 0x74]),
        name: "GET /".into(),
        kind: SpanKind::Server,
        start_time_unix_nano: 1_544_712_660_000_000_000,
        end_time_unix_nano: 1_544_712_661_000_000_000,
        ..Span::default()
    };
    TracesData {
        resource_spans: vec![ResourceSpans {
            resource: Some(Resource {
                attributes: vec![KeyValue::new("service.name", "web")],
                ..Resource::default()
            }),
            scope_spans: vec![ScopeSpans {
                spans: vec![span],
                ..ScopeSpans::default()
            }],
            ..ResourceSpans::default()
        }],
    }
}

/// The path and the reason, with the text of the double the reason names written in.
fn invalid(error: Invalid) -> (String, String) {
    let error = match error.value {
        Some(bits) => error.with_value_text(&f64::from_bits(bits).to_string()),
        None => error,
    };
    (error.at, error.reason)
}

#[test]
fn a_span_whose_end_precedes_its_start_is_rejected() {
    let mut traces = one_span();
    let span = &mut traces.resource_spans[0].scope_spans[0].spans[0];
    span.start_time_unix_nano = 20;
    span.end_time_unix_nano = 10;
    let (at, reason) = invalid(traces.validate().expect_err("end before start"));
    assert_eq!(at, "resourceSpans[0].scopeSpans[0].spans[0]");
    assert!(
        reason.contains("endTimeUnixNano") && reason.contains("precedes"),
        "{reason}"
    );
    assert_eq!(reason, "endTimeUnixNano 10 precedes startTimeUnixNano 20");
    // an end equal to the start (a zero-length span) is fine
    traces.resource_spans[0].scope_spans[0].spans[0].end_time_unix_nano = 20;
    traces.validate().expect("equal times are allowed");
}

#[test]
fn zero_ids_are_rejected_where_the_protocol_requires_one() {
    let mut traces = one_span();
    traces.resource_spans[0].scope_spans[0].spans[0].trace_id = TraceId::new([0; 16]);
    let (at, reason) = invalid(traces.validate().expect_err("zero trace id"));
    assert_eq!(
        (at.as_str(), reason.as_str()),
        (
            "resourceSpans[0].scopeSpans[0].spans[0]",
            "traceId is all zeros"
        )
    );

    let mut traces = one_span();
    traces.resource_spans[0].scope_spans[0].spans[0].span_id = SpanId::new([0; 8]);
    let (_, reason) = invalid(traces.validate().expect_err("zero span id"));
    assert_eq!(reason, "spanId is all zeros");

    let mut traces = one_span();
    traces.resource_spans[0].scope_spans[0].spans[0]
        .links
        .push(pub_observe_schema::Link {
            trace_id: TraceId::new([1; 16]),
            span_id: SpanId::new([0; 8]),
            ..Default::default()
        });
    let (at, reason) = invalid(traces.validate().expect_err("a link to a zero span id"));
    assert_eq!(
        (at.as_str(), reason.as_str()),
        (
            "resourceSpans[0].scopeSpans[0].spans[0].links[0]",
            "spanId is all zeros"
        )
    );

    // a log record may carry no ids, but a span id needs its trace id
    let record = LogRecord {
        span_id: Some(SpanId::new([1; 8])),
        ..LogRecord::default()
    };
    let logs = LogsData {
        resource_logs: vec![ResourceLogs {
            scope_logs: vec![ScopeLogs {
                log_records: vec![record],
                ..ScopeLogs::default()
            }],
            ..ResourceLogs::default()
        }],
    };
    let (at, reason) = invalid(logs.validate().expect_err("span id without trace id"));
    assert_eq!(
        (at.as_str(), reason.as_str()),
        (
            "resourceLogs[0].scopeLogs[0].logRecords[0]",
            "spanId without traceId"
        )
    );
}

#[test]
fn an_event_needs_a_name_and_a_status_code_is_checked() {
    let mut traces = one_span();
    traces.resource_spans[0].scope_spans[0].spans[0]
        .events
        .push(pub_observe_schema::Event {
            time_unix_nano: 5,
            ..Default::default()
        });
    let (at, reason) = invalid(traces.validate().expect_err("an unnamed event"));
    assert_eq!(at, "resourceSpans[0].scopeSpans[0].spans[0].events[0]");
    assert!(reason.contains("name"), "{reason}");
    let mut traces = one_span();
    traces.resource_spans[0].scope_spans[0].spans[0].status = Some(pub_observe_schema::Status {
        code: StatusCode::OK,
        message: "fine".into(),
    });
    traces
        .validate()
        .expect("an OK status with a message is allowed");
}

fn one_metric(metric: Metric) -> MetricsData {
    MetricsData {
        resource_metrics: vec![ResourceMetrics {
            scope_metrics: vec![ScopeMetrics {
                metrics: vec![metric],
                ..ScopeMetrics::default()
            }],
            ..ResourceMetrics::default()
        }],
    }
}

#[test]
fn a_sum_or_histogram_needs_a_temporality() {
    let sum = Metric {
        name: "requests".into(),
        data: Some(MetricData::Sum(Sum {
            data_points: vec![NumberDataPoint {
                time_unix_nano: 1,
                value: Some(NumberValue::Int(3)),
                ..Default::default()
            }],
            aggregation_temporality: AggregationTemporality::Unspecified,
            is_monotonic: true,
        })),
        ..Metric::default()
    };
    let (at, reason) = invalid(
        one_metric(sum)
            .validate()
            .expect_err("unspecified temporality"),
    );
    assert_eq!(
        (at.as_str(), reason.as_str()),
        (
            "resourceMetrics[0].scopeMetrics[0].metrics[0].sum",
            "aggregationTemporality is unspecified"
        )
    );
    let histogram = Metric {
        name: "latency".into(),
        data: Some(MetricData::Histogram(Histogram {
            data_points: vec![],
            aggregation_temporality: AggregationTemporality::Unspecified,
        })),
        ..Metric::default()
    };
    let (at, _) = invalid(
        one_metric(histogram)
            .validate()
            .expect_err("unspecified temporality"),
    );
    assert_eq!(
        at,
        "resourceMetrics[0].scopeMetrics[0].metrics[0].histogram"
    );
    // a gauge has no temporality and an unnamed metric is refused
    let unnamed = Metric {
        data: Some(MetricData::Gauge(Default::default())),
        ..Metric::default()
    };
    let (at, reason) = invalid(one_metric(unnamed).validate().expect_err("unnamed"));
    assert_eq!(at, "resourceMetrics[0].scopeMetrics[0].metrics[0]");
    assert!(reason.contains("name"), "{reason}");
}

#[test]
fn histogram_buckets_and_bounds_are_checked() {
    let point = |counts: Vec<u64>, bounds: Vec<f64>| Metric {
        name: "latency".into(),
        data: Some(MetricData::Histogram(Histogram {
            data_points: vec![HistogramDataPoint {
                time_unix_nano: 1,
                count: counts.iter().sum(),
                bucket_counts: counts,
                explicit_bounds: bounds.iter().map(|bound| Double(bound.to_bits())).collect(),
                ..Default::default()
            }],
            aggregation_temporality: AggregationTemporality::Cumulative,
        })),
        ..Metric::default()
    };
    one_metric(point(vec![1, 2, 3], vec![10.0, 20.0]))
        .validate()
        .expect("three buckets, two bounds");
    one_metric(point(vec![4], vec![]))
        .validate()
        .expect("one bucket, no bounds");
    one_metric(point(vec![], vec![]))
        .validate()
        .expect("no buckets at all is allowed");
    let (at, reason) = invalid(
        one_metric(point(vec![1, 2], vec![10.0, 20.0]))
            .validate()
            .expect_err("two buckets, two bounds"),
    );
    assert_eq!(
        at,
        "resourceMetrics[0].scopeMetrics[0].metrics[0].histogram.dataPoints[0]"
    );
    assert!(
        reason.contains("bucketCounts") && reason.contains("explicitBounds"),
        "{reason}"
    );
    let (_, reason) = invalid(
        one_metric(point(vec![1, 2, 3], vec![20.0, 10.0]))
            .validate()
            .expect_err("bounds not increasing"),
    );
    assert!(reason.contains("strictly increasing"), "{reason}");
    let (_, reason) = invalid(
        one_metric(point(vec![1, 2, 3], vec![10.0, 10.0]))
            .validate()
            .expect_err("equal bounds"),
    );
    assert!(reason.contains("strictly increasing"), "{reason}");
    let mut mismatched = point(vec![1, 2, 1], vec![10.0, 20.0]);
    match &mut mismatched.data {
        Some(MetricData::Histogram(histogram)) => histogram.data_points[0].count = 99,
        _ => unreachable!(),
    }
    let (_, reason) = invalid(
        one_metric(mismatched)
            .validate()
            .expect_err("count is the sum of the buckets"),
    );
    assert!(reason.contains("count 99"), "{reason}");
}

#[test]
fn summary_quantiles_stay_in_the_unit_interval() {
    let summary = |quantile: f64| Metric {
        name: "latency".into(),
        data: Some(MetricData::Summary(Summary {
            data_points: vec![SummaryDataPoint {
                time_unix_nano: 1,
                quantile_values: vec![ValueAtQuantile {
                    quantile: Double(quantile.to_bits()),
                    value: Double(1.0f64.to_bits()),
                }],
                ..Default::default()
            }],
        })),
        ..Metric::default()
    };
    one_metric(summary(0.99)).validate().expect("0.99");
    one_metric(summary(1.0)).validate().expect("1.0");
    let (at, reason) = invalid(one_metric(summary(1.5)).validate().expect_err("1.5"));
    assert_eq!(
        at,
        "resourceMetrics[0].scopeMetrics[0].metrics[0].summary.dataPoints[0].quantileValues[0]"
    );
    assert!(reason.contains("[0, 1]"), "{reason}");
    assert_eq!(reason, "quantile 1.5 is outside [0, 1]");
}

#[test]
fn duplicate_attribute_keys_are_rejected_everywhere() {
    let mut traces = one_span();
    traces.resource_spans[0]
        .resource
        .as_mut()
        .unwrap()
        .attributes
        .push(KeyValue::new("service.name", "twice"));
    let (at, reason) = invalid(traces.validate().expect_err("duplicate resource key"));
    assert_eq!(
        (at.as_str(), reason.as_str()),
        (
            "resourceSpans[0].resource",
            "duplicate attribute key \"service.name\""
        )
    );
    let mut traces = one_span();
    let span = &mut traces.resource_spans[0].scope_spans[0].spans[0];
    span.attributes.push(KeyValue::new("http.method", "GET"));
    span.attributes.push(KeyValue::new("http.method", "POST"));
    let (at, _) = invalid(traces.validate().expect_err("duplicate span key"));
    assert_eq!(at, "resourceSpans[0].scopeSpans[0].spans[0]");
    let point = NumberDataPoint {
        time_unix_nano: 1,
        attributes: vec![KeyValue::new("host", "a"), KeyValue::new("host", "b")],
        value: Some(NumberValue::Double(Double(1.0f64.to_bits()))),
        ..Default::default()
    };
    let gauge = Metric {
        name: "g".into(),
        data: Some(MetricData::Gauge(pub_observe_schema::Gauge {
            data_points: vec![point],
        })),
        ..Metric::default()
    };
    let (at, _) = invalid(
        one_metric(gauge)
            .validate()
            .expect_err("duplicate point key"),
    );
    assert_eq!(
        at,
        "resourceMetrics[0].scopeMetrics[0].metrics[0].gauge.dataPoints[0]"
    );
}

#[test]
fn errors_display_their_path_and_reason() {
    let mut traces = one_span();
    traces.resource_spans[0].scope_spans[0].spans[0].end_time_unix_nano = 1;
    let error = traces.validate().expect_err("end before start");
    let text = error.to_string();
    assert!(
        text.starts_with("resourceSpans[0].scopeSpans[0].spans[0]: "),
        "{text}"
    );
}

#[test]
fn a_valid_payload_of_each_signal_passes() {
    one_span().validate().expect("one valid span");
    let scope = pub_observe_schema::InstrumentationScope {
        name: "my.library".into(),
        attributes: vec![KeyValue::new("k", true), KeyValue::new("k", false)],
        ..Default::default()
    };
    let mut traces = one_span();
    traces.resource_spans[0].scope_spans[0].scope = Some(scope);
    let (at, _) = invalid(traces.validate().expect_err("duplicate scope key"));
    assert_eq!(at, "resourceSpans[0].scopeSpans[0].scope");
    let mut traces = one_span();
    traces.resource_spans[0].scope_spans[0].spans[0].parent_span_id = Some(SpanId::new([0; 8]));
    let (_, reason) = invalid(traces.validate().expect_err("zero parent"));
    assert_eq!(reason, "parentSpanId is all zeros");
    assert!(MetricsData::default().validate().is_ok());
    assert!(TracesData::default().validate().is_ok());
}
