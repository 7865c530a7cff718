use xboard_client::api::{envelope_result, is_envelope, unauthorized_status, ApiStatus};
use xboard_client::error::XboardError;
use xboard_client::api::{de_tags, detail_payload, list_payload, saved_ticket_id};
use xboard_client::json::{json_document, json_field, Json};

fn tags_of(text: &str) -> Vec<String> {
    let doc = json_document(text).unwrap();
    de_tags(json_field(&doc, "tags"))
}

#[test]
fn de_tags_handles_array_string_null() {
    assert_eq!(tags_of(r#"{"tags":["a","b"]}"#), vec!["a", "b"]);
    assert_eq!(tags_of(r#"{"tags":"a,b , c"}"#), vec!["a", "b", "c"]);
    assert!(tags_of(r#"{"tags":null}"#).is_empty());
    assert!(tags_of(r#"{}"#).is_empty());
}

#[test]
fn de_tags_keeps_numbers_and_skips_other_items() {
    assert_eq!(tags_of(r#"{"tags":["x", 7, -3, true, null, {"a":1}]}"#), vec!["x", "7", "-3"]);
    assert_eq!(tags_of(r#"{"tags":[1.5]}"#), vec!["1.5"]);
    assert!(tags_of(r#"{"tags":" , ,"}"#).is_empty());
    assert!(tags_of(r#"{"tags":42}"#).is_empty());
}

#[test]
fn list_payload_accepts_plain_and_paginated_shapes() {
    let plain = json_document(r#"[{"id":1}]"#).unwrap();
    assert!(matches!(list_payload(plain), Some(Json::Array(a)) if a.len() == 1));
    let paged = json_document(r#"{"data":[{"id":1},{"id":2}],"total":2}"#).unwrap();
    assert!(matches!(list_payload(paged), Some(Json::Array(a)) if a.len() == 2));
    let other = json_document(r#"{"total":2}"#).unwrap();
    assert!(list_payload(other).is_none());
    assert!(list_payload(json_document("true").unwrap()).is_none());
}

#[test]
fn detail_payload_unwraps_data() {
    let wrapped = json_document(r#"{"data":{"id":9}}"#).unwrap();
    let d = detail_payload(wrapped);
    assert!(matches!(json_field(&d, "id"), Some(Json::UInt(9))));
    let bare = json_document(r#"{"id":4}"#).unwrap();
    let d = detail_payload(bare);
    assert!(matches!(json_field(&d, "id"), Some(Json::UInt(4))));
}

#[test]
fn saved_ticket_id_reads_integer_or_id_field() {
    assert_eq!(saved_ticket_id(&json_document("12").unwrap()), Some(12));
    assert_eq!(saved_ticket_id(&json_document(r#"{"id": 5}"#).unwrap()), Some(5));
    assert_eq!(saved_ticket_id(&json_document("true").unwrap()), None);
    assert_eq!(saved_ticket_id(&json_document(r#"{"id": "5"}"#).unwrap()), None);
    assert_eq!(saved_ticket_id(&json_document("-2").unwrap()), Some(-2));
}

#[test]
fn envelopes_decide_the_outcome() {
    assert!(unauthorized_status(401));
    assert!(unauthorized_status(403));
    assert!(!unauthorized_status(200));
    assert!(!unauthorized_status(500));
    assert!(is_envelope(&json_document(r#"{"status":"success","data":1}"#).unwrap()));
    assert!(!is_envelope(&json_document(r#"{"data":1}"#).unwrap()));
    assert!(!is_envelope(&json_document("[1]").unwrap()));
    let ok = envelope_result(200, ApiStatus::Success, Some(Json::UInt(3)), None);
    assert!(matches!(ok, Ok(Json::UInt(3))));
    let missing = envelope_result(200, ApiStatus::Success, None, Some("x".into()));
    assert!(matches!(missing, Err(XboardError::ApiFailure { status_code: 200, message }) if message == "success but data missing"));
    let fail = envelope_result(422, ApiStatus::Fail, None, Some("邮箱已被注册".into()));
    assert!(matches!(fail, Err(XboardError::ApiFailure { status_code: 422, message }) if message == "邮箱已被注册"));
    let bare = envelope_result(500, ApiStatus::Fail, Some(Json::Null), None);
    assert!(matches!(bare, Err(XboardError::ApiFailure { status_code: 500, message }) if message.is_empty()));
}

#[test]
fn flags_accept_bools_numbers_and_text() {
    use_truthy(r#"{"f": true}"#, true);
    use_truthy(r#"{"f": false}"#, false);
    use_truthy(r#"{"f": 1}"#, true);
    use_truthy(r#"{"f": 0}"#, false);
    use_truthy(r#"{"f": "1"}"#, true);
    use_truthy(r#"{"f": "true"}"#, true);
    use_truthy(r#"{"f": "0"}"#, false);
    use_truthy(r#"{"f": null}"#, false);
    use_truthy(r#"{}"#, false);
}

fn use_truthy(text: &str, expected: bool) {
    let j = json_document(text).unwrap();
    assert_eq!(xboard_client::api::truthy(json_field(&j, "f")), expected);
}
