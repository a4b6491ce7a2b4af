use pub_observe_schema::{SpanId, TraceId};

#[test]
fn hex_round_trips_and_lowercases() {
    let id = TraceId::from_hex("5B8EFFF798038103D269B633813FC60C").unwrap();
    assert_eq!(id.to_string(), "5b8efff798038103d269b633813fc60c");
    assert_eq!(TraceId::from_hex(&id.to_hex()).unwrap(), id);
    assert_eq!(
        id.debug_text(),
        "TraceId(5b8efff798038103d269b633813fc60c)"
    );
    assert_eq!(
        "eee19b7ec3c1b174".parse::<SpanId>().unwrap().as_bytes()[0],
        0xee
    );
}

#[test]
fn refusals_name_the_field_and_the_length() {
    let error = SpanId::from_hex("zz").unwrap_err();
    assert_eq!(error.at, "spanId");
    assert_eq!(error.reason, "expected 16 hexadecimal digits, got \"zz\"");
    let error = TraceId::from_hex("5b8efff798038103d269b633813fc60é").unwrap_err();
    assert!(error.reason.contains("32 hexadecimal digits"));
    assert!(TraceId::from_hex("5b8efff798038103d269b633813fc6 c").is_err());
}

#[test]
fn zero_is_the_invalid_identifier() {
    assert!(TraceId::default().is_zero());
    assert!(SpanId::from([0; 8]).is_zero());
    assert!(!SpanId::from([0, 0, 0, 0, 0, 0, 0, 9]).is_zero());
}

#[test]
fn ids_are_hex_of_the_right_length_in_either_case() {
    assert_eq!(
        TraceId::from_hex("5B8EFFF798038103D269B633813FC60C")
            .unwrap()
            .to_string(),
        "5b8efff798038103d269b633813fc60c"
    );
    assert_eq!(
        SpanId::from_hex("eee19b7ec3c1b174").unwrap().as_bytes(),
        &[0xee, 0xe1, 0x9b, 0x7e, 0xc3, 0xc1, 0xb1, 0x74]
    );
    for bad in [
        "",
        "5b8efff7",
        "5b8efff798038103d269b633813fc60c00",
        "5b8efff798038103d269b633813fc60g",
    ] {
        let error = TraceId::from_hex(bad).expect_err(bad);
        assert!(
            error.to_string().contains("32 hexadecimal digits"),
            "{}",
            error.to_string()
        );
    }
    let error = SpanId::from_hex("eee19b7ec3c1b17").expect_err("15 digits");
    assert!(
        error.to_string().contains("16 hexadecimal digits"),
        "{}",
        error.to_string()
    );
    assert!(TraceId::new([0; 16]).is_zero());
    assert!(!SpanId::new([0, 0, 0, 0, 0, 0, 0, 1]).is_zero());
}

#[test]
fn hex_is_written_lowercase_and_read_in_either_case() {
    let id = SpanId::new([0xab, 0xcd, 0xef, 0x01, 0x23, 0x45, 0x67, 0x89]);
    assert_eq!(id.to_hex(), "abcdef0123456789");
    assert_eq!(id.debug_text(), "SpanId(abcdef0123456789)");
    assert_eq!(SpanId::from_hex("ABCDEF0123456789").unwrap(), id);
    assert_eq!(SpanId::from_hex("AbCdEf0123456789").unwrap(), id);
    let error = TraceId::from_hex("zz").unwrap_err();
    assert_eq!(error.to_string(), "traceId: expected 32 hexadecimal digits, got \"zz\"");
    assert_eq!(TraceId::LEN, 16);
    assert_eq!(SpanId::LEN, 8);
    assert_eq!(TraceId::from([7; 16]).as_bytes(), &[7; 16]);
}
