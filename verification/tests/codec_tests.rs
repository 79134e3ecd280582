use iot_core::domain::{Sensor, SensorEntry};
use iot_core::errors::DbError;
use iot_core::http::{ping_body, status_for_error};
use iot_core::json::{entry_json, i64_dec, json_escape, sensor_json};
use iot_core::uuid_text::{format_uuid, parse_uuid};

#[test]
fn parse_uuid_hyphenated() {
    assert_eq!(
        parse_uuid("550e8400-e29b-41d4-a716-446655440000"),
        Some(0x550e8400e29b41d4a716446655440000)
    );
}

#[test]
fn parse_uuid_simple_and_uppercase() {
    assert_eq!(
        parse_uuid("550e8400e29b41d4a716446655440000"),
        Some(0x550e8400e29b41d4a716446655440000)
    );
    assert_eq!(
        parse_uuid("550E8400-E29B-41D4-A716-446655440000"),
        Some(0x550e8400e29b41d4a716446655440000)
    );
}

#[test]
fn parse_uuid_rejects_malformed() {
    assert_eq!(parse_uuid(""), None);
    assert_eq!(parse_uuid("not-a-uuid"), None);
    assert_eq!(parse_uuid("550e8400-e29b-41d4-a716-44665544000"), None);
    assert_eq!(parse_uuid("550e8400-e29b-41d4-a716-4466554400zz"), None);
    assert_eq!(parse_uuid("550e8400e29b-41d4-a716-446655440000"), None);
}

#[test]
fn format_uuid_canonical_and_round_trip() {
    let u: u128 = 0x550e8400e29b41d4a716446655440000;
    let text = format_uuid(u);
    assert_eq!(text, "550e8400-e29b-41d4-a716-446655440000");
    assert_eq!(parse_uuid(&text), Some(u));
    assert_eq!(format_uuid(0), "00000000-0000-0000-0000-000000000000");
    assert_eq!(format_uuid(u128::MAX), "ffffffff-ffff-ffff-ffff-ffffffffffff");
}

#[test]
fn json_escape_specials() {
    assert_eq!(json_escape("plain"), "plain");
    assert_eq!(json_escape("a\"b\\c"), "a\\\"b\\\\c");
    assert_eq!(json_escape("line\nbreak\ttab"), "line\\nbreak\\ttab");
    assert_eq!(json_escape("\u{1}"), "\\u0001");
    assert_eq!(json_escape("\u{1f}"), "\\u001f");
}

#[test]
fn i64_text_edges() {
    assert_eq!(i64_dec(0), "0");
    assert_eq!(i64_dec(1700000000), "1700000000");
    assert_eq!(i64_dec(-42), "-42");
    assert_eq!(i64_dec(i64::MIN), "-9223372036854775808");
    assert_eq!(i64_dec(i64::MAX), "9223372036854775807");
}

#[test]
fn sensor_json_exact() {
    let s = Sensor { id: 1, label: String::from("living \"room\""), created_at: -5 };
    assert_eq!(
        sensor_json(&s),
        "{\"id\":\"00000000-0000-0000-0000-000000000001\",\"label\":\"living \\\"room\\\"\",\"created_at\":-5}"
    );
}

#[test]
fn entry_json_exact() {
    let e = SensorEntry { id: 2, sensor_id: 3, value_bits: 12.5f64.to_bits(), created_at: 8 };
    assert_eq!(
        entry_json(&e, "12.5"),
        "{\"id\":\"00000000-0000-0000-0000-000000000002\",\"sensor_id\":\"00000000-0000-0000-0000-000000000003\",\"value\":12.5,\"created_at\":8}"
    );
}

#[test]
fn ping_is_pong() {
    assert_eq!(ping_body(), "pong");
}

#[test]
fn error_status_mapping() {
    assert_eq!(status_for_error(&DbError::NotFound), 404);
    assert_eq!(status_for_error(&DbError::NotInserted), 500);
    assert_eq!(status_for_error(&DbError::Backend(String::from("down"))), 500);
    assert_eq!(status_for_error(&DbError::Migrate(String::from("v2"))), 500);
    assert!(!DbError::NotFound.message().is_empty());
}
