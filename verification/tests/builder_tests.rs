use prof_rs::builder::ProfileBuilder;
use prof_rs::builder::payload_get;
use prof_rs::json::JsonValue;
use prof_rs::json_u64;

#[test]
fn test_profile_builder() {
    let profile_data = ProfileBuilder::new()
        .name(b"John Doe")
        .email(b"john@example.com")
        .field(b"bio", JsonValue::Str(b"Software developer".to_vec()))
        .field(b"age", json_u64(30))
        .build();

    match payload_get(&profile_data, b"name") {
        Some(JsonValue::Str(s)) => assert_eq!(s, &b"John Doe".to_vec()),
        _ => panic!("name missing or not a string"),
    }
    match payload_get(&profile_data, b"email") {
        Some(JsonValue::Str(s)) => assert_eq!(s, &b"john@example.com".to_vec()),
        _ => panic!("email missing or not a string"),
    }
    match payload_get(&profile_data, b"bio") {
        Some(JsonValue::Str(s)) => assert_eq!(s, &b"Software developer".to_vec()),
        _ => panic!("bio missing or not a string"),
    }
    match payload_get(&profile_data, b"age") {
        Some(JsonValue::Num(l)) => assert_eq!(l, &b"30".to_vec()),
        _ => panic!("age missing or not a number"),
    }
}

#[test]
fn builder_last_write_wins() {
    let data = ProfileBuilder::new()
        .field(b"k", JsonValue::Str(b"first".to_vec()))
        .field(b"other", json_u64(1))
        .field(b"k", JsonValue::Str(b"second".to_vec()))
        .build();
    match payload_get(&data, b"k") {
        Some(JsonValue::Str(s)) => assert_eq!(s, &b"second".to_vec()),
        _ => panic!("k missing or not a string"),
    }
    match payload_get(&data, b"other") {
        Some(JsonValue::Num(l)) => assert_eq!(l, &b"1".to_vec()),
        _ => panic!("other missing or not a number"),
    }
}

#[test]
fn builder_missing_key_is_absent() {
    let data = ProfileBuilder::new().name(b"A").build();
    assert!(payload_get(&data, b"email").is_none());
}
