use prof_rs::builder::ProfileBuilder;
use prof_rs::builder::payload_get;
use prof_rs::json::JsonValue;
use prof_rs::json::serialize_json;
use prof_rs::json_u64;
use prof_rs::parse::parse_json;

#[test]
fn serialize_builder_payload_is_valid_json() {
    let data = ProfileBuilder::new()
        .name(b"John Doe")
        .email(b"john@example.com")
        .field(b"age", json_u64(30))
        .build();
    let bytes = serialize_json(&JsonValue::Obj(data));
    let v: serde_json::Value = serde_json::from_slice(&bytes).expect("library output must be valid JSON");
    assert_eq!(v["name"], serde_json::Value::String("John Doe".to_string()));
    assert_eq!(v["email"], serde_json::Value::String("john@example.com".to_string()));
    assert_eq!(v["age"], serde_json::Value::Number(serde_json::Number::from(30)));
}

#[test]
fn round_trip_preserves_fields() {
    let data = ProfileBuilder::new()
        .name(b"John Doe")
        .field(b"age", json_u64(30))
        .field(b"flag", JsonValue::Bool(true))
        .field(b"nothing", JsonValue::Null)
        .field(b"list", JsonValue::Arr(vec![json_u64(1), json_u64(2)]))
        .build();
    let doc = JsonValue::Obj(data);
    let bytes = serialize_json(&doc);
    let parsed = parse_json(&bytes).expect("own serialization must parse");
    // parsing the canonical form yields the same value: re-serializing gives
    // the same bytes, and each field is retrievable with its value and type
    let bytes2 = serialize_json(&parsed);
    assert_eq!(bytes, bytes2);
    match parsed {
        JsonValue::Obj(members) => {
            match payload_get(&members, b"name") {
                Some(JsonValue::Str(s)) => assert_eq!(s, &b"John Doe".to_vec()),
                _ => panic!("name lost"),
            }
            match payload_get(&members, b"age") {
                Some(JsonValue::Num(l)) => assert_eq!(l, &b"30".to_vec()),
                _ => panic!("age lost"),
            }
            match payload_get(&members, b"flag") {
                Some(JsonValue::Bool(b)) => assert!(*b),
                _ => panic!("flag lost"),
            }
            match payload_get(&members, b"nothing") {
                Some(JsonValue::Null) => {}
                _ => panic!("null lost"),
            }
            match payload_get(&members, b"list") {
                Some(JsonValue::Arr(items)) => assert_eq!(items.len(), 2),
                _ => panic!("list lost"),
            }
        }
        _ => panic!("object did not come back as an object"),
    }
}

#[test]
fn round_trip_preserves_escaped_strings() {
    let tricky = b"a \"quoted\" \\ back\nslash\ttab".to_vec();
    let data = ProfileBuilder::new()
        .field(b"tricky", JsonValue::Str(tricky.clone()))
        .build();
    let bytes = serialize_json(&JsonValue::Obj(data));
    // cross-check with an independent JSON implementation
    let v: serde_json::Value = serde_json::from_slice(&bytes).expect("valid JSON");
    assert_eq!(
        v["tricky"],
        serde_json::Value::String("a \"quoted\" \\ back\nslash\ttab".to_string())
    );
    let parsed = parse_json(&bytes).expect("own serialization must parse");
    match parsed {
        JsonValue::Obj(members) => match payload_get(&members, b"tricky") {
            Some(JsonValue::Str(s)) => assert_eq!(s, &tricky),
            _ => panic!("tricky lost"),
        },
        _ => panic!("not an object"),
    }
}

#[test]
fn numbers_render_in_decimal() {
    match json_u64(0) {
        JsonValue::Num(l) => assert_eq!(l, b"0".to_vec()),
        _ => panic!("not a number"),
    }
    match json_u64(18446744073709551615) {
        JsonValue::Num(l) => assert_eq!(l, b"18446744073709551615".to_vec()),
        _ => panic!("not a number"),
    }
    let bytes = serialize_json(&json_u64(105));
    assert_eq!(bytes, b"105".to_vec());
    let reparsed = parse_json(&bytes).expect("decimal parses");
    match reparsed {
        JsonValue::Num(l) => assert_eq!(l, b"105".to_vec()),
        _ => panic!("number type lost"),
    }
}

#[test]
fn parser_accepts_whitespace_and_rejects_garbage() {
    assert!(parse_json(b" { \"a\" : [ 1 , 2 ] , \"b\" : null } ").is_some());
    assert!(parse_json(b"not json at all").is_none());
    assert!(parse_json(b"01").is_none());
    assert!(parse_json(b"0").is_some());
    assert!(parse_json(b"-5").is_some());
    assert!(parse_json(b"{\"a\":1").is_none());
    assert!(parse_json(b"[]").is_some());
    assert!(parse_json(b"{}").is_some());
    assert!(parse_json(b"").is_none());
}

#[test]
fn parser_accepts_fractions_and_exponents() {
    for body in [
        &b"4.5"[..],
        b"-0.25",
        b"1e10",
        b"1E10",
        b"1e+10",
        b"2.5e-3",
        b"0.0",
        b"[1.5,2e2]",
    ] {
        let v = parse_json(body).expect("RFC 8259 number");
        // the lexeme is kept verbatim
        assert_eq!(prof_rs::json::serialize_json(&v), body.to_vec());
    }
    assert!(parse_json(b"1.").is_none());
    assert!(parse_json(b"1e").is_none());
    assert!(parse_json(b".5").is_none());
    assert!(parse_json(b"01.5").is_none());
}

#[test]
fn parser_decodes_unicode_escapes() {
    match parse_json(b"\"\\u0041\"") {
        Some(JsonValue::Str(s)) => assert_eq!(s, b"A".to_vec()),
        other => panic!("expected a string, got {:?}", other),
    }
    // a two-byte and a three-byte code point, checked against serde_json
    match parse_json(b"\"\\u00e9 \\u20ac\"") {
        Some(JsonValue::Str(s)) => {
            let expected: serde_json::Value = serde_json::from_slice(b"\"\\u00e9 \\u20ac\"").unwrap();
            assert_eq!(s, expected.as_str().unwrap().as_bytes().to_vec());
        }
        other => panic!("expected a string, got {:?}", other),
    }
    // a surrogate pair becomes one four-byte sequence
    match parse_json(b"\"\\ud83d\\ude00\"") {
        Some(JsonValue::Str(s)) => {
            let expected: serde_json::Value = serde_json::from_slice(b"\"\\ud83d\\ude00\"").unwrap();
            assert_eq!(s, expected.as_str().unwrap().as_bytes().to_vec());
        }
        other => panic!("expected a string, got {:?}", other),
    }
    // a lone surrogate is rejected, as serde_json rejects it
    assert!(parse_json(b"\"\\ud83d\"").is_none());
    assert!(serde_json::from_slice::<serde_json::Value>(b"\"\\ud83d\"").is_err());
    assert!(parse_json(b"\"\\uZZZZ\"").is_none());
}

#[test]
fn control_bytes_serialize_as_unicode_escapes() {
    let data = ProfileBuilder::new()
        .field(b"ctl", JsonValue::Str(vec![0x01u8, 0x1f]))
        .build();
    let bytes = serialize_json(&JsonValue::Obj(data));
    assert_eq!(bytes, b"{\"ctl\":\"\\u0001\\u001f\"}".to_vec());
    let v: serde_json::Value = serde_json::from_slice(&bytes).expect("valid JSON");
    assert_eq!(v["ctl"].as_str().unwrap().as_bytes(), &[0x01u8, 0x1f]);
    // and the bytes come back through the library's own parser
    match parse_json(&bytes) {
        Some(JsonValue::Obj(members)) => match payload_get(&members, b"ctl") {
            Some(JsonValue::Str(s)) => assert_eq!(s, &vec![0x01u8, 0x1f]),
            _ => panic!("ctl lost"),
        },
        _ => panic!("not an object"),
    }
}
