use pub_observe_schema::metrics::{check_increasing, check_number_points, check_temporality};
use pub_observe_schema::{
    AggregationTemporality, Double, Exemplar, ExponentialHistogramDataPoint, HistogramDataPoint,
    NumberDataPoint, Path, SpanId, SummaryDataPoint, TraceId, ValueAtQuantile,
};

fn bits(values: &[f64]) -> Vec<Double> {
    values.iter().map(|value| Double(value.to_bits())).collect()
}

#[test]
fn temporality_is_an_integer_both_ways() {
    for value in [
        AggregationTemporality::Unspecified,
        AggregationTemporality::Delta,
        AggregationTemporality::Cumulative,
    ] {
        assert_eq!(
            AggregationTemporality::from_u32(value.as_u32()),
            Some(value)
        );
    }
    assert_eq!(AggregationTemporality::from_u32(3), None);
}

#[test]
fn histogram_rules() {
    let at = Path::root().field("p");
    let mut point = HistogramDataPoint {
        count: 3,
        bucket_counts: vec![1, 2],
        explicit_bounds: bits(&[5.0]),
        ..Default::default()
    };
    assert!(point.check(&at).is_ok());
    point.count = 4;
    assert!(point.check(&at).unwrap_err().reason.contains("count 4"));
    point.count = 3;
    point.explicit_bounds = bits(&[5.0, 5.0]);
    assert!(
        point
            .check(&at)
            .unwrap_err()
            .reason
            .contains("one bucket more")
    );
    point.bucket_counts = vec![1, 1, 1];
    assert_eq!(
        point.check(&at).unwrap_err().reason,
        "explicitBounds is not strictly increasing at index 1"
    );
    point.explicit_bounds = bits(&[f64::NAN, 5.0]);
    assert!(
        point.check(&at).is_err(),
        "NaN never compares as increasing"
    );
    let exponential = ExponentialHistogramDataPoint {
        scale: 21,
        ..Default::default()
    };
    assert_eq!(
        exponential.check(&at).unwrap_err().reason,
        "scale 21 is outside [-10, 20]"
    );
    let bad_exemplar = NumberDataPoint {
        exemplars: vec![Exemplar {
            trace_id: Some(TraceId::default()),
            ..Default::default()
        }],
        ..Default::default()
    };
    assert_eq!(
        check_number_points(&[bad_exemplar], &at)
            .unwrap_err()
            .to_string(),
        "p.dataPoints[0].exemplars[0]: traceId is all zeros"
    );
}

#[test]
fn doubles_compare_by_their_values() {
    let at = Path::root();
    assert!(check_increasing(&bits(&[-2.0, -1.0, -0.0, 0.5, 1.0, f64::INFINITY]), &at).is_ok());
    assert!(check_increasing(&bits(&[f64::NEG_INFINITY, -1e300, 1e-300]), &at).is_ok());
    assert_eq!(
        check_increasing(&bits(&[-0.0, 0.0]), &at).unwrap_err().reason,
        "explicitBounds is not strictly increasing at index 1"
    );
    assert_eq!(
        check_increasing(&bits(&[1.0, 2.0, 3.0, 2.5]), &at).unwrap_err().reason,
        "explicitBounds is not strictly increasing at index 3"
    );
    assert!(check_increasing(&bits(&[1.0, f64::NAN]), &at).is_err());
    assert!(check_increasing(&bits(&[f64::NAN]), &at).is_ok());
    assert_eq!(
        check_temporality(AggregationTemporality::Unspecified, &at).unwrap_err().reason,
        "aggregationTemporality is unspecified"
    );
    assert!(check_temporality(AggregationTemporality::Delta, &at).is_ok());
}

#[test]
fn the_other_point_rules() {
    let at = Path::root().field("p");
    let overflowing = HistogramDataPoint {
        count: 1,
        bucket_counts: vec![u64::MAX, 2],
        explicit_bounds: bits(&[1.0]),
        ..Default::default()
    };
    assert_eq!(
        overflowing.check(&at).unwrap_err().reason,
        "count 1 is not the sum of bucketCounts"
    );
    let mismatch = HistogramDataPoint {
        count: 3,
        bucket_counts: vec![1, 2],
        explicit_bounds: bits(&[1.0, 2.0]),
        ..Default::default()
    };
    assert_eq!(
        mismatch.check(&at).unwrap_err().reason,
        "bucketCounts has 2 entries and explicitBounds 2: a histogram has one bucket more than bounds"
    );
    let low = ExponentialHistogramDataPoint {
        scale: -11,
        ..Default::default()
    };
    assert_eq!(low.check(&at).unwrap_err().reason, "scale -11 is outside [-10, 20]");
    let edge = ExponentialHistogramDataPoint {
        scale: -10,
        exemplars: vec![Exemplar {
            span_id: Some(SpanId::default()),
            ..Default::default()
        }],
        ..Default::default()
    };
    assert_eq!(
        edge.check(&at).unwrap_err().to_string(),
        "p.exemplars[0]: spanId is all zeros"
    );
    let summary = SummaryDataPoint {
        quantile_values: vec![
            ValueAtQuantile { quantile: Double(0.0f64.to_bits()), value: Double(1.0f64.to_bits()) },
            ValueAtQuantile { quantile: Double((-0.0f64).to_bits()), value: Double(1.0f64.to_bits()) },
            ValueAtQuantile { quantile: Double(1.0f64.to_bits()), value: Double(1.0f64.to_bits()) },
            ValueAtQuantile { quantile: Double((-0.5f64).to_bits()), value: Double(1.0f64.to_bits()) },
        ],
        ..Default::default()
    };
    let error = summary.check(&at).unwrap_err();
    assert_eq!(error.at, "p.quantileValues[3]");
    assert_eq!(error.reason, "quantile {} is outside [0, 1]");
    assert_eq!(error.value, Some((-0.5f64).to_bits()));
    let written = error.with_value_text(&(-0.5f64).to_string());
    assert_eq!(written.reason, "quantile -0.5 is outside [0, 1]");
    assert_eq!(written.value, None);
    assert_eq!(written.to_string(), "p.quantileValues[3]: quantile -0.5 is outside [0, 1]");
    let nan = SummaryDataPoint {
        quantile_values: vec![ValueAtQuantile { quantile: Double(f64::NAN.to_bits()), value: Double(0) }],
        ..Default::default()
    };
    let error = nan.check(&at).unwrap_err();
    let shown = f64::from_bits(error.value.unwrap()).to_string();
    assert_eq!(error.with_value_text(&shown).reason, "quantile NaN is outside [0, 1]");
}

#[test]
fn a_complete_refusal_takes_no_value_text() {
    let at = Path::root().field("p");
    let error = check_temporality(AggregationTemporality::Unspecified, &at).unwrap_err();
    assert_eq!(error.value, None);
    assert_eq!(error.with_value_text("9"), error);
}
