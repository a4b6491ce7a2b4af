use pub_observe_schema::{
    AnyValue, LogRecord, LogsData, Path, ResourceLogs, ScopeLogs, Severity, SeverityNumber,
    Signal, SpanId, TraceId,
};

#[test]
fn severity_numbers_are_integers_in_range() {
    for value in 0..=24u8 {
        let number = SeverityNumber::new(value).unwrap();
        assert_eq!(number.as_u8(), value);
    }
    assert_eq!(SeverityNumber::new(25), None);
    assert_eq!(SeverityNumber::default(), SeverityNumber::UNSPECIFIED);
    assert!(SeverityNumber::WARN < SeverityNumber::ERROR4);
}

#[test]
fn the_levels_cover_four_numbers_each() {
    let expected = [
        (
            SeverityNumber::TRACE,
            SeverityNumber::TRACE4,
            Severity::Trace,
        ),
        (
            SeverityNumber::DEBUG,
            SeverityNumber::DEBUG4,
            Severity::Debug,
        ),
        (SeverityNumber::INFO, SeverityNumber::INFO4, Severity::Info),
        (SeverityNumber::WARN, SeverityNumber::WARN4, Severity::Warn),
        (
            SeverityNumber::ERROR,
            SeverityNumber::ERROR4,
            Severity::Error,
        ),
        (
            SeverityNumber::FATAL,
            SeverityNumber::FATAL4,
            Severity::Fatal,
        ),
    ];
    for (low, high, level) in expected {
        assert_eq!(high.as_u8() - low.as_u8(), 3);
        for value in low.as_u8()..=high.as_u8() {
            assert_eq!(
                SeverityNumber::new(value).unwrap().level(),
                Some(level),
                "{value}"
            );
        }
    }
    assert_eq!(SeverityNumber::UNSPECIFIED.level(), None);
    assert_eq!(Severity::Fatal.to_string(), "FATAL");
    assert_eq!(Severity::Info.name(), "INFO");
}

#[test]
fn a_record_with_ids_needs_the_trace_first() {
    let at = Path::root().field("record");
    let record = LogRecord {
        span_id: Some(SpanId::from([1; 8])),
        ..LogRecord::default()
    };
    assert_eq!(
        record.check(&at).unwrap_err().reason,
        "spanId without traceId"
    );
    let record = LogRecord {
        trace_id: Some(TraceId::default()),
        ..LogRecord::default()
    };
    assert_eq!(
        record.check(&at).unwrap_err().reason,
        "traceId is all zeros"
    );
    let record = LogRecord {
        trace_id: Some(TraceId::from([1; 16])),
        span_id: Some(SpanId::default()),
        ..LogRecord::default()
    };
    assert_eq!(record.check(&at).unwrap_err().reason, "spanId is all zeros");
    assert!(LogRecord::default().check(&at).is_ok());
}

#[test]
fn severity_numbers_map_to_six_levels() {
    assert_eq!(SeverityNumber::UNSPECIFIED.level(), None);
    assert_eq!(
        SeverityNumber::new(1).unwrap().level(),
        Some(Severity::Trace)
    );
    assert_eq!(
        SeverityNumber::new(8).unwrap().level(),
        Some(Severity::Debug)
    );
    assert_eq!(
        SeverityNumber::new(9).unwrap().level(),
        Some(Severity::Info)
    );
    assert_eq!(
        SeverityNumber::new(16).unwrap().level(),
        Some(Severity::Warn)
    );
    assert_eq!(
        SeverityNumber::new(17).unwrap().level(),
        Some(Severity::Error)
    );
    assert_eq!(
        SeverityNumber::new(24).unwrap().level(),
        Some(Severity::Fatal)
    );
    assert_eq!(SeverityNumber::new(25), None);
    assert_eq!(SeverityNumber::FATAL4.as_u8(), 24);
    assert_eq!(Severity::Warn.to_string(), "WARN");
}

#[test]
fn a_record_without_ids_is_valid_and_paths_name_the_record() {
    let logs = LogsData {
        resource_logs: vec![ResourceLogs {
            scope_logs: vec![ScopeLogs {
                log_records: vec![
                    LogRecord {
                        body: Some(AnyValue::from("no ids at all")),
                        ..LogRecord::default()
                    },
                    LogRecord {
                        trace_id: Some(TraceId::from([2; 16])),
                        span_id: Some(SpanId::from([0; 8])),
                        ..LogRecord::default()
                    },
                ],
                ..ScopeLogs::default()
            }],
            ..ResourceLogs::default()
        }],
    };
    let error = logs.validate().unwrap_err();
    assert_eq!(error.at, "resourceLogs[0].scopeLogs[0].logRecords[1]");
    assert_eq!(error.reason, "spanId is all zeros");
    assert!(LogsData::default().validate().is_ok());
}
