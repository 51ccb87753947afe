use axiom_carriers::antie::cbor::{cbor_to_json, decode_arg, decode_item, json_to_cbor};
use axiom_carriers::json::JsonValue;

fn obj(entries: Vec<(&str, JsonValue)>) -> JsonValue {
    JsonValue::object(entries.into_iter().map(|(k, v)| (k.to_string(), v)).collect())
}

fn num(n: u64) -> JsonValue {
    JsonValue::PosInt(n)
}

fn text(s: &str) -> JsonValue {
    JsonValue::Str(s.to_string())
}

fn round_trip(json: JsonValue) {
    let cbor = json_to_cbor(&json);
    let decoded = cbor_to_json(&cbor).unwrap();
    assert_eq!(json, decoded);
}

#[test]
fn test_roundtrip_basic() {
    round_trip(obj(vec![
        ("name", text("test")),
        ("value", num(42)),
        ("flag", JsonValue::Bool(true)),
        ("empty", JsonValue::Null),
        ("nested", obj(vec![("a", num(1))])),
    ]));
}

#[test]
fn test_byte_arrays() {
    round_trip(obj(vec![
        ("data", JsonValue::Array(vec![num(0), num(1), num(2), num(255)])),
        ("text", text("hello")),
    ]));
}

#[test]
fn test_large_payload() {
    let sig: Vec<JsonValue> = (0..7856u64).map(|i| num(i % 256)).collect();
    let json = obj(vec![("signature", JsonValue::Array(sig)), ("amount", num(1_000_000))]);
    let cbor = json_to_cbor(&json);
    let json_size = json.to_text().len();
    assert!(cbor.len() < json_size / 3, "CBOR {} should be < JSON/3 {}", cbor.len(), json_size / 3);

    let decoded = cbor_to_json(&cbor).unwrap();
    assert_eq!(json, decoded);
}

#[test]
fn test_empty_cbor_rejected() {
    assert!(cbor_to_json(&[]).is_err());
}

#[test]
fn test_truncated_cbor_rejected() {
    assert!(cbor_to_json(&[0xA5, 0x61, 0x61, 0x01]).is_err());
}

#[test]
fn test_deeply_nested_cbor() {
    let mut json = num(42);
    for _ in 0..30 {
        json = obj(vec![("a", json)]);
    }
    round_trip(json);
}

#[test]
fn test_negative_integers() {
    round_trip(obj(vec![("neg", JsonValue::NegInt(-42)), ("zero", num(0)), ("pos", num(42))]));
}

#[test]
fn test_unicode_text() {
    round_trip(obj(vec![("jp", text("高市首相")), ("de", text("Wir hätten")), ("emoji", text("test"))]));
}

#[test]
fn integers_of_all_sizes_round_trip() {
    for n in [0u64, 23, 24, 255, 256, 65_535, 65_536, 4_294_967_295, 4_294_967_296, u64::MAX] {
        round_trip(obj(vec![("v", num(n))]));
    }
    for n in [-1i64, -24, -25, -256, -257, -65_537, -4_294_967_297, i64::MIN] {
        round_trip(obj(vec![("v", JsonValue::NegInt(n))]));
    }
}

#[test]
fn negative_integers_stay_negative() {
    let mut bytes = vec![0x3B, 0x7F, 0xFF, 0xFF, 0xFF, 0xFF, 0xFF, 0xFF, 0xFF];
    assert_eq!(cbor_to_json(&bytes), Ok(JsonValue::NegInt(i64::MIN)));
    bytes = vec![0x3B, 0x80, 0, 0, 0, 0, 0, 0, 0];
    assert_eq!(cbor_to_json(&bytes), Err("Negative integer out of range: -1 - 9223372036854775808".to_string()));
    bytes = vec![0x3B, 0xFF, 0xFF, 0xFF, 0xFF, 0xFF, 0xFF, 0xFF, 0xFF];
    assert!(cbor_to_json(&bytes).is_err());
}

#[test]
fn no_part_of_an_encoding_reads() {
    let json = obj(vec![
        ("list", JsonValue::Array(vec![num(1), text("x"), JsonValue::Null])),
        ("bytes", JsonValue::Array(vec![num(1), num(2)])),
        ("float", JsonValue::Float(1.5f64.to_bits())),
        ("deep", obj(vec![("n", JsonValue::NegInt(-70_000))])),
    ]);
    let bytes = json_to_cbor(&json);
    for k in 0..bytes.len() {
        assert!(cbor_to_json(&bytes[..k]).is_err());
    }
    assert!(cbor_to_json(&bytes).is_ok());
}

#[test]
fn positions_and_depths_out_of_range_are_errors() {
    assert_eq!(decode_item(&[0x00], 0, 1_000), Err("CBOR nesting too deep (>32 levels)".to_string()));
    assert_eq!(decode_item(&[0x00], 9, 0), Err("Unexpected end of CBOR data".to_string()));
    assert_eq!(decode_arg(&[0x00], 9, 24), Err("Truncated 1-byte arg".to_string()));
    assert_eq!(decode_arg(&[0x00], usize::MAX, 27), Err("Truncated 8-byte arg".to_string()));
    assert_eq!(decode_arg(&[], 9, 7), Ok((7, 9)));
}

#[test]
fn exact_encodings() {
    assert_eq!(json_to_cbor(&num(10)), vec![0x0A]);
    assert_eq!(json_to_cbor(&num(1_000)), vec![0x19, 0x03, 0xE8]);
    assert_eq!(json_to_cbor(&JsonValue::NegInt(-1)), vec![0x20]);
    assert_eq!(json_to_cbor(&text("hi")), vec![0x62, b'h', b'i']);
    assert_eq!(json_to_cbor(&JsonValue::Bool(true)), vec![0xF5]);
    assert_eq!(json_to_cbor(&JsonValue::Null), vec![0xF6]);
    assert_eq!(json_to_cbor(&obj(vec![("a", num(1))])), vec![0xA1, 0x61, b'a', 0x01]);
}

#[test]
fn nesting_beyond_the_limit_is_rejected() {
    let mut json = num(1);
    for _ in 0..40 {
        json = obj(vec![("a", json)]);
    }
    assert!(cbor_to_json(&json_to_cbor(&json)).is_err());
}

#[test]
fn broken_text_is_rejected() {
    assert!(cbor_to_json(&[0x62, 0xFF, 0xFE]).is_err());
}

#[test]
fn floats_read_and_print() {
    let v = cbor_to_json(&[0xFB, 0x3F, 0xF8, 0, 0, 0, 0, 0, 0]).unwrap();
    assert_eq!(v, JsonValue::Float(1.5f64.to_bits()));
    assert_eq!(v.to_text(), "1.5");
}

#[test]
fn json_text_is_quoted_and_sorted() {
    let v = obj(vec![("b", text("x\"y\n")), ("a", JsonValue::Array(vec![num(1), JsonValue::NegInt(-2)]))]);
    assert_eq!(v.to_text(), "{\"a\":[1,-2],\"b\":\"x\\\"y\\n\"}");
}

#[test]
fn json_prints_as_serde_json_does() {
    let source = "{\"a\":[1,-2,null,true,1.5],\"b\":\"x\\\"y\\n\\u00e9\\u0001\",\"c\":{\"d\":[]}}";
    let known: serde_json::Value = serde_json::from_str(source).unwrap();
    let list = JsonValue::Array(vec![
        num(1),
        JsonValue::NegInt(-2),
        JsonValue::Null,
        JsonValue::Bool(true),
        JsonValue::Float(1.5f64.to_bits()),
    ]);
    let ours = obj(vec![("a", list), ("b", text("x\"y\n\u{e9}\u{1}")), ("c", obj(vec![("d", JsonValue::Array(vec![]))]))]);
    assert_eq!(ours.to_text(), known.to_string());
    assert_eq!(ours.debug_string(), format!("{:?}", known));
}
