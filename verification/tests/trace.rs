use pub_observe_schema::{Path, Span, SpanKind, StatusCode};

#[test]
fn enums_are_integers_both_ways() {
    for kind in [
        SpanKind::Unspecified,
        SpanKind::Internal,
        SpanKind::Server,
        SpanKind::Client,
        SpanKind::Producer,
        SpanKind::Consumer,
    ] {
        assert_eq!(SpanKind::from_u32(kind.as_u32()), Some(kind));
    }
    assert_eq!(SpanKind::from_u32(6), None);
    for code in [StatusCode::Unset, StatusCode::OK, StatusCode::Error] {
        assert_eq!(StatusCode::from_u32(code.as_u32()), Some(code));
    }
    assert_eq!(StatusCode::from_u32(3), None);
}

#[test]
fn a_default_span_is_written_empty_and_refused() {
    let span = Span::default();
    assert_eq!(
        span.check(&Path::root().field("span"))
            .unwrap_err()
            .to_string(),
        "span: traceId is all zeros"
    );
}

#[test]
fn the_protocol_numbers_of_the_enums() {
    assert_eq!(SpanKind::Server.as_u32(), 2);
    assert_eq!(SpanKind::Consumer.as_u32(), 5);
    assert_eq!(SpanKind::from_u32(3), Some(SpanKind::Client));
    assert_eq!(StatusCode::Error.as_u32(), 2);
    assert_eq!(StatusCode::from_u32(1), Some(StatusCode::OK));
    assert_eq!(SpanKind::default(), SpanKind::Unspecified);
    assert_eq!(StatusCode::default(), StatusCode::Unset);
}
