use pub_observe_schema::base64::{decode, encode};

#[test]
fn the_rfc_4648_vectors() {
    // the seven vectors of RFC 4648 §10: the prefixes of "foobar"
    let encodings = [
        "", "Zg==", "Zm8=", "Zm9v", "Zm9vYg==", "Zm9vYmE=", "Zm9vYmFy",
    ];
    for (length, encoded) in encodings.into_iter().enumerate() {
        let plain = &"foobar"[..length];
        assert_eq!(encode(plain.as_bytes()), encoded);
        assert_eq!(decode(encoded).unwrap(), plain.as_bytes());
        assert_eq!(
            decode(encoded.trim_end_matches('=')).unwrap(),
            plain.as_bytes(),
            "unpadded {encoded}"
        );
    }
}

#[test]
fn both_alphabets_and_the_refusals() {
    assert_eq!(encode(&[0xfb, 0xff]), "+/8=");
    assert_eq!(decode("-_8=").unwrap(), [0xfb, 0xff]);
    assert_eq!(decode("+/8").unwrap(), [0xfb, 0xff]);
    assert!(decode("Zg=").unwrap_err().contains("padding"));
    assert!(decode("Zg===").unwrap_err().contains("padding"));
    assert!(decode("Z").unwrap_err().contains("encode no byte string"));
    assert!(decode("Zg?=").unwrap_err().contains("symbol"));
    assert!(decode("Zh==").unwrap_err().contains("trailing bits"));
}

#[test]
fn base64_refusals_are_spelled_out() {
    assert_eq!(decode("Zg=").unwrap_err(), "not base64: misplaced padding in \"Zg=\"");
    assert_eq!(decode("A===").unwrap_err(), "not base64: misplaced padding in \"A===\"");
    assert_eq!(decode("ZZZZZ").unwrap_err(), "not base64: 5 symbols encode no byte string");
    assert_eq!(decode("Zg?=").unwrap_err(), "not base64: the symbol '?' in \"Zg?=\"");
    assert_eq!(decode("A=AA").unwrap_err(), "not base64: the symbol '=' in \"A=AA\"");
    assert_eq!(decode("Zh==").unwrap_err(), "not base64: non-zero trailing bits in \"Zh==\"");
    assert_eq!(decode("Zm9=").unwrap_err(), "not base64: non-zero trailing bits in \"Zm9=\"");
    // a byte beyond ASCII is shown as the character of its value
    assert!(decode("Zm\u{e9}").unwrap_err().starts_with("not base64: the symbol '\u{c3}'"));
}

#[test]
fn encoding_then_decoding_gives_the_bytes_back() {
    let bytes: Vec<u8> = (0..=255u8).collect();
    for length in 0..bytes.len() {
        let encoded = encode(&bytes[..length]);
        assert_eq!(encoded.len() % 4, 0);
        assert_eq!(decode(&encoded).unwrap(), &bytes[..length]);
        assert_eq!(decode(encoded.trim_end_matches('=')).unwrap(), &bytes[..length]);
        let url_safe = encoded.replace('+', "-").replace('/', "_");
        assert_eq!(decode(&url_safe).unwrap(), &bytes[..length]);
    }
    assert_eq!(encode(&[0x00, 0xff, 0x10, 0x20, 0x30]), "AP8QIDA=");
    assert_eq!(encode(&[1, 2, 3]), "AQID");
    assert_eq!(decode("AP8QIDA").unwrap(), [0x00, 0xff, 0x10, 0x20, 0x30]);
}

#[test]
fn a_decoded_text_re_encodes_to_its_canonical_form() {
    let bytes = decode("Zm9v-_8").unwrap();
    assert_eq!(bytes, [b'f', b'o', b'o', 0xfb, 0xff]);
    assert_eq!(encode(&bytes), "Zm9v+/8=");
    for text in ["Zm9vYg", "Zm9vYg==", "Zm9vYmE", "Zm9vYmFy", ""] {
        let bytes = decode(text).unwrap();
        let symbols = text.trim_end_matches('=');
        assert_eq!(bytes.len(), symbols.len() * 3 / 4, "{text}");
        let padding = "=".repeat((4 - symbols.len() % 4) % 4);
        assert_eq!(encode(&bytes), format!("{symbols}{padding}"), "{text}");
    }
}
