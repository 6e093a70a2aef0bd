use prof_rs::envelope::interpret_create_profile_response;
use prof_rs::envelope::interpret_delete_response;
use prof_rs::envelope::interpret_get_profile_response;
use prof_rs::envelope::interpret_health_response;
use prof_rs::envelope::interpret_image_response;
use prof_rs::envelope::interpret_spell_response;
use prof_rs::envelope::interpret_update_profile_response;
use prof_rs::error::ProfError;
use prof_rs::json::JsonValue;

#[test]
fn success_envelope_yields_profile() {
    let body = br#"{"success":true,"profile":{"uuid":"u1","name":"A","email":"a@x.com","createdAt":"t1","updatedAt":"t1"}}"#;
    let p = interpret_get_profile_response(200, body).expect("success envelope");
    assert_eq!(p.name, b"A".to_vec());
    assert_eq!(p.uuid, b"u1".to_vec());
    assert_eq!(p.email, b"a@x.com".to_vec());
    assert_eq!(p.created_at, b"t1".to_vec());
    assert_eq!(p.updated_at, b"t1".to_vec());
    assert!(p.image_filename.is_none());
    assert!(p.additional_fields.is_empty());

    let p = interpret_create_profile_response(200, body).expect("success envelope");
    assert_eq!(p.name, b"A".to_vec());
}

#[test]
fn profile_keeps_additional_fields() {
    let body = br#"{"success":true,"profile":{"uuid":"u1","name":"A","email":"a@x.com","createdAt":"t1","updatedAt":"t1","bio":"hi","age":30}}"#;
    let p = interpret_get_profile_response(200, body).expect("success envelope");
    assert_eq!(p.additional_fields.len(), 2);
    assert_eq!(p.additional_fields[0].0, b"bio".to_vec());
    match &p.additional_fields[0].1 {
        JsonValue::Str(s) => assert_eq!(s, &b"hi".to_vec()),
        _ => panic!("bio lost"),
    }
    assert_eq!(p.additional_fields[1].0, b"age".to_vec());
    match &p.additional_fields[1].1 {
        JsonValue::Num(l) => assert_eq!(l, &b"30".to_vec()),
        _ => panic!("age lost"),
    }
}

#[test]
fn not_found_maps_to_not_found_error() {
    let body = br#"{"success":false,"error":"Profile not found"}"#;
    match interpret_get_profile_response(404, body) {
        Err(ProfError::NotFound(msg)) => assert_eq!(msg, b"Profile not found".to_vec()),
        other => panic!("expected NotFound, got {:?}", other),
    }
}

#[test]
fn not_found_defaults_differ_by_endpoint() {
    let body = br#"{"success":false}"#;
    match interpret_create_profile_response(404, body) {
        Err(ProfError::NotFound(msg)) => assert_eq!(msg, b"Not found".to_vec()),
        other => panic!("expected NotFound, got {:?}", other),
    }
    match interpret_update_profile_response(404, body) {
        Err(ProfError::NotFound(msg)) => assert_eq!(msg, b"Profile not found".to_vec()),
        other => panic!("expected NotFound, got {:?}", other),
    }
}

#[test]
fn validation_error_carries_details() {
    let body = br#"{"success":false,"error":"Invalid","details":["name required","email invalid"]}"#;
    match interpret_get_profile_response(400, body) {
        Err(ProfError::Validation { errors }) => {
            assert_eq!(errors, vec![b"name required".to_vec(), b"email invalid".to_vec()]);
        }
        other => panic!("expected Validation, got {:?}", other),
    }
}

#[test]
fn validation_without_details_is_service_error() {
    let body = br#"{"success":false}"#;
    match interpret_get_profile_response(400, body) {
        Err(ProfError::Service(msg)) => assert_eq!(msg, b"Validation failed".to_vec()),
        other => panic!("expected Service, got {:?}", other),
    }
}

#[test]
fn other_failure_status_is_service_error() {
    let body = br#"{"success":false}"#;
    match interpret_get_profile_response(500, body) {
        Err(ProfError::Service(msg)) => assert_eq!(msg, b"Unknown error".to_vec()),
        other => panic!("expected Service, got {:?}", other),
    }
}

#[test]
fn unparseable_body_is_service_error() {
    let body = b"not json at all";
    match interpret_get_profile_response(200, body) {
        Err(ProfError::Service(msg)) => {
            assert_eq!(msg, b"Could not parse response: not json at all".to_vec());
        }
        other => panic!("expected Service, got {:?}", other),
    }
    match interpret_get_profile_response(500, body) {
        Err(ProfError::Service(msg)) => {
            assert_eq!(msg, b"Could not parse response: not json at all".to_vec());
        }
        other => panic!("expected Service, got {:?}", other),
    }
}

#[test]
fn json_without_error_shape_is_invalid_format() {
    let body = br#"{"x":1}"#;
    match interpret_get_profile_response(200, body) {
        Err(ProfError::Service(msg)) => {
            assert_eq!(msg, b"Invalid response format: {\"x\":1}".to_vec());
        }
        other => panic!("expected Service, got {:?}", other),
    }
}

#[test]
fn fallback_error_shape_is_recognized() {
    // non-string detail entries are dropped silently in the fallback shape
    let body = br#"{"error":"Invalid","details":["a",1,"b"]}"#;
    match interpret_get_profile_response(400, body) {
        Err(ProfError::Validation { errors }) => {
            assert_eq!(errors, vec![b"a".to_vec(), b"b".to_vec()]);
        }
        other => panic!("expected Validation, got {:?}", other),
    }
    let body = br#"{"error":"boom"}"#;
    match interpret_get_profile_response(500, body) {
        Err(ProfError::Service(msg)) => assert_eq!(msg, b"boom".to_vec()),
        other => panic!("expected Service, got {:?}", other),
    }
}

#[test]
fn malformed_profile_falls_through_to_invalid_format() {
    // the envelope fails strict decoding (name is not a string) and the body
    // has no error field, so the fallback chain ends at the invalid-format error
    let body = br#"{"success":true,"profile":{"uuid":"u","name":1}}"#;
    match interpret_get_profile_response(200, body) {
        Err(ProfError::Service(msg)) => {
            let expected =
                b"Invalid response format: {\"success\":true,\"profile\":{\"uuid\":\"u\",\"name\":1}}"
                    .to_vec();
            assert_eq!(msg, expected);
        }
        other => panic!("expected Service, got {:?}", other),
    }
}

#[test]
fn success_without_profile_is_service_error() {
    let body = br#"{"success":true}"#;
    match interpret_get_profile_response(200, body) {
        Err(ProfError::Service(msg)) => assert_eq!(msg, b"No profile in response".to_vec()),
        other => panic!("expected Service, got {:?}", other),
    }
}

#[test]
fn fractional_profile_field_is_kept() {
    let body = br#"{"success":true,"profile":{"uuid":"u1","name":"A","email":"a@x.com","createdAt":"t1","updatedAt":"t1","score":4.5}}"#;
    let p = interpret_get_profile_response(200, body).expect("success envelope");
    assert_eq!(p.name, b"A".to_vec());
    assert_eq!(p.additional_fields.len(), 1);
    assert_eq!(p.additional_fields[0].0, b"score".to_vec());
    match &p.additional_fields[0].1 {
        JsonValue::Num(l) => assert_eq!(l, &b"4.5".to_vec()),
        _ => panic!("score lost"),
    }
}

#[test]
fn duplicated_key_resolves_to_last_occurrence() {
    let body = br#"{"error":"first","error":"second"}"#;
    match interpret_get_profile_response(500, body) {
        Err(ProfError::Service(msg)) => assert_eq!(msg, b"second".to_vec()),
        other => panic!("expected Service, got {:?}", other),
    }
}

#[test]
fn delete_interpretation() {
    assert!(interpret_delete_response(204, b"").is_ok());
    assert!(interpret_delete_response(200, b"ignored").is_ok());
    let body = br#"{"success":false,"error":"Delete broke"}"#;
    match interpret_delete_response(500, body) {
        Err(ProfError::Service(msg)) => assert_eq!(msg, b"Delete broke".to_vec()),
        other => panic!("expected Service, got {:?}", other),
    }
    let body = br#"{"success":false}"#;
    match interpret_delete_response(500, body) {
        Err(ProfError::Service(msg)) => assert_eq!(msg, b"Delete failed".to_vec()),
        other => panic!("expected Service, got {:?}", other),
    }
    match interpret_delete_response(500, b"garbage") {
        Err(ProfError::Serialization(msg)) => assert_eq!(msg, b"garbage".to_vec()),
        other => panic!("expected Serialization, got {:?}", other),
    }
}

#[test]
fn health_interpretation() {
    let body = br#"{"status":"ok","service":"prof","version":"0.1.0","timestamp":"now"}"#;
    let h = interpret_health_response(body).expect("well-formed health body");
    assert_eq!(h.status, b"ok".to_vec());
    assert_eq!(h.service, b"prof".to_vec());
    assert_eq!(h.version, b"0.1.0".to_vec());
    assert_eq!(h.timestamp, b"now".to_vec());
    match interpret_health_response(b"{}") {
        Err(ProfError::Serialization(msg)) => assert_eq!(msg, b"{}".to_vec()),
        other => panic!("expected Serialization, got {:?}", other),
    }
}

#[test]
fn spell_interpretation() {
    let body = br#"{"success":true,"result":42}"#;
    let m = interpret_spell_response(body).expect("successful spell");
    assert!(m.success);
    assert!(m.error.is_none());
    assert_eq!(m.data.len(), 1);
    assert_eq!(m.data[0].0, b"result".to_vec());
    match &m.data[0].1 {
        JsonValue::Num(l) => assert_eq!(l, &b"42".to_vec()),
        _ => panic!("result lost"),
    }
    let body = br#"{"success":false,"error":"bad spell"}"#;
    match interpret_spell_response(body) {
        Err(ProfError::Service(msg)) => assert_eq!(msg, b"bad spell".to_vec()),
        other => panic!("expected Service, got {:?}", other),
    }
    match interpret_spell_response(b"nope") {
        Err(ProfError::Serialization(msg)) => assert_eq!(msg, b"nope".to_vec()),
        other => panic!("expected Serialization, got {:?}", other),
    }
}

#[test]
fn image_interpretation() {
    match interpret_image_response(200, b"rawbytes".to_vec()) {
        Ok(bytes) => assert_eq!(bytes, b"rawbytes".to_vec()),
        other => panic!("expected bytes, got {:?}", other),
    }
    match interpret_image_response(404, b"whatever".to_vec()) {
        Err(ProfError::NotFound(msg)) => assert_eq!(msg, b"Image not found".to_vec()),
        other => panic!("expected NotFound, got {:?}", other),
    }
}

#[test]
fn image_filename_and_null_fields() {
    let body = br#"{"success":true,"profile":{"uuid":"u","name":"n","email":"e","createdAt":"c","updatedAt":"d","imageFilename":"pic.png"},"error":null,"details":null}"#;
    let p = interpret_get_profile_response(200, body).expect("success envelope");
    assert_eq!(p.image_filename, Some(b"pic.png".to_vec()));
}
