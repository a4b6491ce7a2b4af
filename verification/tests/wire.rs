use pub_observe_schema::text::{decimal_text, signed_decimal_text};
use pub_observe_schema::wire::{
    enum_from_i64, enum_from_u64, i64_from_text, i64_from_u64, u64_from_i64, u64_from_text,
};
use pub_observe_schema::{AggregationTemporality, SpanKind, StatusCode};

#[test]
fn decimal_strings_read_back() {
    assert_eq!(u64_from_text("18446744073709551615"), Ok(u64::MAX));
    assert_eq!(u64_from_text("+7"), Ok(7));
    assert_eq!(u64_from_text("0"), Ok(0));
    assert_eq!(
        u64_from_text("18446744073709551616").unwrap_err(),
        "\"18446744073709551616\" is not a 64-bit unsigned integer"
    );
    assert_eq!(
        u64_from_text("many").unwrap_err(),
        "\"many\" is not a 64-bit unsigned integer"
    );
    assert!(u64_from_text("").is_err());
    assert!(u64_from_text("+").is_err());
    assert!(u64_from_text("-1").is_err());
    assert!(u64_from_text(" 1").is_err());
    assert!(u64_from_text("1.5").is_err());
    assert!(u64_from_text("١").is_err());
    assert_eq!(i64_from_text("-9223372036854775808"), Ok(i64::MIN));
    assert_eq!(i64_from_text("9223372036854775807"), Ok(i64::MAX));
    assert_eq!(i64_from_text("-8"), Ok(-8));
    assert_eq!(i64_from_text("+8"), Ok(8));
    assert_eq!(
        i64_from_text("9223372036854775808").unwrap_err(),
        "\"9223372036854775808\" is not a 64-bit signed integer"
    );
    assert!(i64_from_text("-9223372036854775809").is_err());
    assert!(i64_from_text("-").is_err());
    assert!(i64_from_text("--1").is_err());
    for value in [0u64, 1, 9, 10, 99, 100, 12345, u64::MAX] {
        assert_eq!(u64_from_text(&decimal_text(value)), Ok(value));
        assert_eq!(decimal_text(value), value.to_string());
    }
    for value in [0i64, -1, 1, -10, i64::MIN, i64::MAX] {
        assert_eq!(i64_from_text(&signed_decimal_text(value)), Ok(value));
        assert_eq!(signed_decimal_text(value), value.to_string());
    }
}

#[test]
fn numbers_of_the_other_sign() {
    assert_eq!(u64_from_i64(5), Ok(5));
    assert_eq!(u64_from_i64(-1).unwrap_err(), "-1 is negative");
    assert_eq!(i64_from_u64(5), Ok(5));
    assert_eq!(
        i64_from_u64(u64::MAX).unwrap_err(),
        "18446744073709551615 exceeds a signed 64-bit integer"
    );
}

#[test]
fn enum_numbers_are_read_or_refused_with_the_field() {
    assert_eq!(enum_from_u64("kind", 2, SpanKind::from_u32), Ok(SpanKind::Server));
    assert_eq!(enum_from_i64("kind", 5, SpanKind::from_u32), Ok(SpanKind::Consumer));
    assert_eq!(
        enum_from_u64("kind", 6, SpanKind::from_u32).unwrap_err(),
        "kind 6 is not a known value"
    );
    assert_eq!(
        enum_from_u64("status.code", 4294967298, StatusCode::from_u32).unwrap_err(),
        "status.code 4294967298 is not a known value"
    );
    assert_eq!(
        enum_from_i64("aggregationTemporality", -1, AggregationTemporality::from_u32).unwrap_err(),
        "aggregationTemporality -1 is not a known value"
    );
    assert_eq!(
        enum_from_i64("aggregationTemporality", 2, AggregationTemporality::from_u32),
        Ok(AggregationTemporality::Cumulative)
    );
}
