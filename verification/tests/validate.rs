use pub_observe_schema::{unique_keys, Invalid, KeyValue, Path};

#[test]
fn paths_read_like_the_json_mapping() {
    let root = Path::root();
    assert_eq!(
        root.item("resourceSpans", 0)
            .item("scopeSpans", 1)
            .item("spans", 2)
            .0,
        "resourceSpans[0].scopeSpans[1].spans[2]"
    );
    assert_eq!(
        root.item("resourceSpans", 0).field("resource").0,
        "resourceSpans[0].resource"
    );
    assert_eq!(root.field("x").refuse("why").to_string(), "x: why");
}

#[test]
fn duplicate_keys_are_named() {
    let at = Path::root().field("resource");
    let ok = [KeyValue::new("a", 1i64), KeyValue::new("b", 2i64)];
    assert!(unique_keys(&ok, &at).is_ok());
    let dup = [KeyValue::new("a", 1i64), KeyValue::new("a", 2i64)];
    assert_eq!(
        unique_keys(&dup, &at).unwrap_err().to_string(),
        "resource: duplicate attribute key \"a\""
    );
}

#[test]
fn the_first_repeated_key_is_named() {
    let at = Path::root();
    let list = [
        KeyValue::new("a", 1i64),
        KeyValue::new("b", 2i64),
        KeyValue::new("c", 3i64),
        KeyValue::new("b", 4i64),
        KeyValue::new("a", 5i64),
    ];
    let error = unique_keys(&list, &at).unwrap_err();
    assert_eq!(error, Invalid::new("", "duplicate attribute key \"b\""));
    assert!(unique_keys(&[], &at).is_ok());
    assert_eq!(Path::root().item("links", 12).0, "links[12]");
    assert_eq!(Invalid::new("p", "r").to_string(), "p: r");
}
