use prof_rs::client::build_auth_body;
use prof_rs::client::build_spell_body;
use prof_rs::client::guess_mime_type;
use prof_rs::client::ProfClient;
use prof_rs::builder::ProfileBuilder;
use prof_rs::error::ProfError;
use prof_rs::json_u64;
use prof_rs::json::JsonValue;
use sessionless::Sessionless;

#[test]
fn test_client_creation() {
    let client = ProfClient::new(b"http://localhost:3007".to_vec());
    assert_eq!(client.base_url, b"http://localhost:3007".to_vec());
}

#[test]
fn base_url_trailing_slash_stripped() {
    let client = ProfClient::new(b"http://localhost:3007/".to_vec());
    assert_eq!(client.base_url, b"http://localhost:3007".to_vec());
    // only a single trailing slash is stripped
    let client = ProfClient::new(b"http://x//".to_vec());
    assert_eq!(client.base_url, b"http://x/".to_vec());
}

#[test]
fn auth_params_fail_without_signer() {
    let client = ProfClient::new(b"http://localhost:3007".to_vec());
    match client.get_auth_params() {
        Err(ProfError::Auth(msg)) => assert_eq!(msg, b"Sessionless not configured".to_vec()),
        _ => panic!("expected an Auth error"),
    }
}

#[test]
fn auth_params_present_with_signer() {
    let client = ProfClient::new(b"http://localhost:3007".to_vec())
        .with_sessionless(Sessionless::new());
    let params = client.get_auth_params().expect("signer configured");
    assert_eq!(params.uuid, client.identity_hex);
    assert_eq!(params.uuid.len(), 66);
    assert_eq!(params.hash.len(), 36);
    assert_eq!(params.signature.len(), 128);
    assert!(!params.timestamp.is_empty());
    assert!(params.timestamp.iter().all(|b| b.is_ascii_digit()));
}

#[test]
fn nonce_is_fresh_per_call() {
    let client = ProfClient::new(b"http://localhost:3007".to_vec())
        .with_sessionless(Sessionless::new());
    let a = client.get_auth_params().expect("signer configured");
    let b = client.get_auth_params().expect("signer configured");
    assert_ne!(a.hash, b.hash);
}

#[test]
fn set_sessionless_replaces_identity() {
    let mut client = ProfClient::new(b"http://localhost:3007".to_vec());
    client.set_sessionless(Sessionless::new());
    assert_eq!(client.identity_hex.len(), 66);
    assert!(client.get_auth_params().is_ok());
}

#[test]
fn image_url_carries_identity_and_auth_keys() {
    let client = ProfClient::new(b"http://localhost:3007".to_vec())
        .with_sessionless(Sessionless::new());
    let url = client.get_profile_image_url(None).expect("signer configured");
    let url = String::from_utf8(url).expect("url is ascii");
    let identity = String::from_utf8(client.identity_hex.clone()).expect("hex is ascii");
    let prefix = format!("http://localhost:3007/user/{}/profile/image?uuid={}&timestamp=", identity, identity);
    assert!(url.starts_with(&prefix), "url was {}", url);
    assert!(url.contains("&hash="));
    assert!(url.contains("&signature="));
}

#[test]
fn image_url_without_signer_fails() {
    let client = ProfClient::new(b"http://localhost:3007".to_vec());
    match client.get_profile_image_url(None) {
        Err(ProfError::Auth(msg)) => assert_eq!(msg, b"Sessionless not configured".to_vec()),
        _ => panic!("expected an Auth error"),
    }
}

#[test]
fn image_url_for_target_uuid() {
    let client = ProfClient::new(b"http://h".to_vec()).with_sessionless(Sessionless::new());
    let url = client.get_profile_image_url(Some(b"someone")).expect("signer configured");
    let url = String::from_utf8(url).expect("ascii");
    assert!(url.starts_with("http://h/user/someone/profile/image?uuid="));
}

#[test]
fn mime_types_from_extension() {
    assert_eq!(guess_mime_type(b"photo.jpg"), b"image/jpeg".to_vec());
    assert_eq!(guess_mime_type(b"photo.JPEG"), b"image/jpeg".to_vec());
    assert_eq!(guess_mime_type(b"pic.PNG"), b"image/png".to_vec());
    assert_eq!(guess_mime_type(b"anim.webp"), b"image/webp".to_vec());
    assert_eq!(guess_mime_type(b"archive.tar.gz"), b"application/octet-stream".to_vec());
    assert_eq!(guess_mime_type(b"noextension"), b"application/octet-stream".to_vec());
    assert_eq!(guess_mime_type(b"trailingdot."), b"application/octet-stream".to_vec());
}

#[test]
fn auth_body_and_spell_body_are_json() {
    let client = ProfClient::new(b"http://h".to_vec()).with_sessionless(Sessionless::new());
    let params = client.get_auth_params().expect("signer configured");
    let body = build_auth_body(&params);
    let v: serde_json::Value = serde_json::from_slice(&body).expect("valid JSON");
    assert!(v["uuid"].is_string());
    assert!(v["timestamp"].is_string());
    assert!(v["hash"].is_string());
    assert!(v["signature"].is_string());

    let data = ProfileBuilder::new().field(b"spellwork", json_u64(7)).build();
    let body = build_spell_body(data, &params);
    let v: serde_json::Value = serde_json::from_slice(&body).expect("valid JSON");
    assert_eq!(v["spellwork"], serde_json::Value::Number(serde_json::Number::from(7)));
    assert!(v["signature"].is_string());
}

#[test]
fn spell_body_auth_overwrites_caller_keys() {
    let client = ProfClient::new(b"http://h".to_vec()).with_sessionless(Sessionless::new());
    let params = client.get_auth_params().expect("signer configured");
    let data = ProfileBuilder::new()
        .field(b"uuid", JsonValue::Str(b"forged".to_vec()))
        .field(b"timestamp", JsonValue::Str(b"0".to_vec()))
        .field(b"kept", json_u64(1))
        .build();
    let body = build_spell_body(data, &params);
    let v: serde_json::Value = serde_json::from_slice(&body).expect("valid JSON");
    // each auth key occurs exactly once, bound to the auth value
    let expected_uuid = String::from_utf8(params.uuid.clone()).expect("hex is ascii");
    assert_eq!(v["uuid"], serde_json::Value::String(expected_uuid));
    let expected_ts = String::from_utf8(params.timestamp.clone()).expect("decimal is ascii");
    assert_eq!(v["timestamp"], serde_json::Value::String(expected_ts));
    assert_eq!(v["kept"], serde_json::Value::Number(serde_json::Number::from(1)));
    let text = String::from_utf8(body).expect("ascii body");
    assert_eq!(text.matches("\"uuid\"").count(), 1);
    assert_eq!(text.matches("\"timestamp\"").count(), 1);
}
