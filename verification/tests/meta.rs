use pub_observe_schema::{
    flags, is_default, AggregationTemporality, SeverityNumber, SpanKind, StatusCode, NAME, VERSION,
};

#[test]
fn name_follows_the_naming_rule() {
    assert_eq!(NAME, "pub-observe-schema");
    assert!(NAME.starts_with("pub-observe-"));
}

#[test]
fn version_is_semver_shaped() {
    assert_eq!(VERSION.split('.').count(), 3, "{VERSION}");
}

#[test]
fn the_flag_masks_and_the_defaults() {
    assert_eq!(flags::TRACE_FLAGS_MASK, 0xff);
    assert_eq!(flags::CONTEXT_HAS_IS_REMOTE_MASK, 0x100);
    assert_eq!(flags::CONTEXT_IS_REMOTE_MASK, 0x200);
    assert_eq!(flags::NO_RECORDED_VALUE_MASK, 1);
    assert!(is_default(&0u32));
    assert!(!is_default(&7u64));
    assert!(is_default(&false));
    assert!(is_default(&String::new()));
    assert!(!is_default(&String::from("x")));
    assert!(is_default(&SpanKind::Unspecified));
    assert!(!is_default(&SpanKind::Server));
    assert!(is_default(&StatusCode::Unset));
    assert!(!is_default(&StatusCode::Error));
    assert!(is_default(&AggregationTemporality::Unspecified));
    assert!(!is_default(&AggregationTemporality::Delta));
    assert!(is_default(&SeverityNumber::UNSPECIFIED));
    assert!(!is_default(&SeverityNumber::INFO));
}
