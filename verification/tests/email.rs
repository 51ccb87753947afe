use axiom_carriers::antie::cbor::{cbor_to_json, json_to_cbor};
use axiom_carriers::antie::decrypt::EnvelopeDecryptor;
use axiom_carriers::antie::email::{
    build_cheque_delivery_email, build_fanout_relay_email, build_peer_audit_request_email,
    build_peer_audit_response_email, build_response, build_scar_consent_email, build_scar_heal_email, decode_payload,
    decode_payload_with_context, parse_email, parse_email_outcome, parse_subject, read_letter, requires_envelope, sanitize_header,
    validate_email_addr, DecodeError, ParseOutcome, UmpEnvelope,
};
use axiom_carriers::antie::payload::{read_payload, AntiePayload};
use axiom_carriers::json::JsonValue;
use base64::engine::general_purpose::STANDARD as BASE64;
use base64::Engine;
use ciborium::Value;

fn obj(entries: Vec<(&str, JsonValue)>) -> JsonValue {
    JsonValue::object(entries.into_iter().map(|(k, v)| (k.to_string(), v)).collect())
}

fn text(s: &str) -> JsonValue {
    JsonValue::Str(s.to_string())
}

/// What a request without any field is in CBOR.
fn empty_request() -> Vec<u8> {
    json_to_cbor(&obj(vec![("pgp_fingerprint_hex", JsonValue::Null), ("issuer_set_hex", JsonValue::Array(vec![]))]))
}

/// The same, as a mail body.
fn empty_body() -> String {
    let value = Value::Map(vec![
        (Value::Text("pgp_fingerprint_hex".into()), Value::Null),
        (Value::Text("issuer_set_hex".into()), Value::Array(vec![])),
    ]);
    let mut buf = Vec::new();
    ciborium::ser::into_writer(&value, &mut buf).unwrap();
    BASE64.encode(&buf)
}

fn plain(body: Vec<u8>) -> Option<UmpEnvelope> {
    Some(UmpEnvelope::Plain { ump_bytes: body })
}

fn audit_request() -> Vec<u8> {
    json_to_cbor(&obj(vec![
        ("pgp_fingerprint_hex", JsonValue::Null),
        ("issuer_set_hex", JsonValue::Array(vec![])),
        ("peer_audit_request", obj(vec![("txid", text("audit-test"))])),
    ]))
}

fn mail(head: &str, body: &str) -> Vec<u8> {
    format!(
        "{head}From: sender@example.com\r\n\
         To: alpha@example.com\r\n\
         Subject: AXIOM/peer_audit_request/req-001\r\n\
         Content-Type: text/plain\r\n\
         \r\n\
         {body}"
    )
    .into_bytes()
}

fn body_of(mail: &[u8]) -> Vec<u8> {
    let text = String::from_utf8(mail.to_vec()).unwrap();
    BASE64.decode(text.split("\r\n\r\n").nth(1).unwrap().trim()).unwrap()
}

#[test]
fn test_parse_subject() {
    let (msg_type, req_id) = parse_subject("AXIOM/witness/req-12345").unwrap();
    assert_eq!(msg_type, "witness");
    assert_eq!(req_id, "req-12345");
}

#[test]
fn test_parse_subject_invalid() {
    assert!(parse_subject("Invalid subject").is_err());
    assert!(parse_subject("AXIOM/only-one").is_err());
}

#[test]
fn test_decode_payload_roundtrip() {
    for _ in 0..3 {
        let inner = empty_request();
        let wire = BASE64.encode(b"an envelope");
        let decoded = decode_payload("witness", &wire, plain(inner.clone())).unwrap();
        assert_eq!(decoded.raw_ump_body, inner);
        assert!(decoded.public_key.is_none());
        assert!(decoded.pgp_fingerprint_hex.is_none());
        assert!(decoded.issuer_set_hex.is_empty());
    }
}

#[test]
fn test_sanitize_header_strips_crlf() {
    assert_eq!(sanitize_header("normal@test.com"), "normal@test.com");
    assert_eq!(sanitize_header("bad\r\nBcc: attacker@evil.com"), "badBcc: attacker@evil.com");
    assert_eq!(sanitize_header("has\nnewline"), "hasnewline");
    assert_eq!(sanitize_header("has\rcarriage"), "hascarriage");
    assert_eq!(sanitize_header(""), "");
}

#[test]
fn test_validate_email_addr_rejects_injection() {
    assert!(validate_email_addr("good@test.com").is_ok());
    assert!(validate_email_addr("user@host.example.org").is_ok());
    // Header injection attempts
    assert!(validate_email_addr("bad@test.com\r\nBcc: spy@evil.com").is_err());
    assert!(validate_email_addr("bad@test.com\nBcc: spy@evil.com").is_err());
    // Invalid addresses
    assert!(validate_email_addr("").is_err());
    assert!(validate_email_addr("no-at-sign").is_err());
}

#[test]
fn test_build_response_rejects_injected_from() {
    let payload = json_to_cbor(&obj(vec![("test", JsonValue::Bool(true))]));
    let result = build_response(
        "receiver@test.com",
        "attacker@evil.com\r\nBcc: spy@evil.com",
        "witness_response",
        "req-1",
        None,
        &payload,
    );
    assert!(result.is_err());
}

#[test]
fn test_build_response_rejects_injected_to() {
    let payload = json_to_cbor(&obj(vec![("test", JsonValue::Bool(true))]));
    let result = build_response(
        "victim@test.com\r\nBcc: spy@evil.com",
        "sender@test.com",
        "witness_response",
        "req-1",
        None,
        &payload,
    );
    assert!(result.is_err());
}

#[test]
fn test_build_response_valid_email() {
    let payload = json_to_cbor(&obj(vec![("success", JsonValue::Bool(true))]));
    let result = build_response(
        "to@test.com",
        "from@test.com",
        "witness_response",
        "req-123",
        Some("<original-msg-id@axiom>"),
        &payload,
    );
    assert!(result.is_ok());
    let email = String::from_utf8(result.unwrap()).unwrap();
    assert!(email.contains("From: from@test.com\r\n"));
    assert!(email.contains("To: to@test.com\r\n"));
    assert!(email.contains("Subject: AXIOM/witness_response/req-123\r\n"));
    assert!(email.contains("In-Reply-To: <original-msg-id@axiom>\r\n"));
    assert!(email.contains("\r\n\r\n")); // header/body separator
    assert_eq!(body_of(email.as_bytes()), payload);
}

#[test]
fn test_parse_subject_extra_slashes() {
    let (msg_type, req_id) = parse_subject("AXIOM/fanout/abc-123").unwrap();
    assert_eq!(msg_type, "fanout");
    assert_eq!(req_id, "abc-123");

    let (msg_type, req_id) = parse_subject("AXIOM/witness/abc/def/ghi").unwrap();
    assert_eq!(msg_type, "witness");
    assert_eq!(req_id, "abc/def/ghi");
}

#[test]
fn test_parse_subject_empty_parts() {
    assert!(parse_subject("").is_err());
    assert!(parse_subject("AXIOM").is_err());
    assert!(parse_subject("AXIOM/").is_err());
    assert!(parse_subject("NOT_AXIOM/witness/123").is_err());
}

#[test]
fn parse_email_extracts_x_uncle_correlate_header() {
    let correlate_hex = "ab".repeat(32);
    let raw = mail(&format!("X-UNCLE-Correlate: {correlate_hex}\r\n"), &empty_body());
    let parsed = match parse_email(&raw, None) {
        Ok(p) => p,
        Err(e) => panic!("{}", e.to_text()),
    };
    let got = parsed.uncle_correlate.expect("X-UNCLE-Correlate extracted");
    assert_eq!(got, [0xABu8; 32], "correlate matches stamped value");
    assert_eq!(parsed.from, "sender@example.com");
    assert_eq!(parsed.to, "alpha@example.com");
    assert_eq!(parsed.message_type, "peer_audit_request");
    assert_eq!(parsed.request_id, "req-001");
    assert_eq!(parsed.raw, raw);
}

#[test]
fn parse_email_without_x_uncle_correlate_leaves_field_none() {
    let parsed = match parse_email(&mail("", &empty_body()), None) {
        Ok(p) => p,
        Err(e) => panic!("{}", e.to_text()),
    };
    assert!(parsed.uncle_correlate.is_none(), "non-UNCLE email → field None");
}

#[test]
fn parse_email_rejects_malformed_uncle_correlate_header() {
    let parsed = match parse_email(&mail("X-UNCLE-Correlate: not-hex-at-all\r\n", &empty_body()), None) {
        Ok(p) => p,
        Err(e) => panic!("{}", e.to_text()),
    };
    assert!(parsed.uncle_correlate.is_none());
}

#[test]
fn test_decode_payload_empty_body() {
    assert!(decode_payload("witness", "", None).is_err());
}

#[test]
fn test_decode_payload_invalid_base64() {
    assert!(decode_payload("witness", "not!valid!base64!!!", None).is_err());
}

#[test]
fn test_decode_payload_invalid_cbor() {
    // Valid base64 but not valid CBOR
    let bad_cbor = BASE64.encode(b"\xff\xff\xff");
    assert!(decode_payload("witness", &bad_cbor, None).is_err());
    assert!(decode_payload("peer_audit_request", &bad_cbor, None).is_err());
}

#[test]
fn test_decode_payload_unwraps_plain_envelope() {
    let inner = empty_request();
    let decoded = decode_payload("witness", &BASE64.encode(b"an envelope"), plain(inner.clone())).unwrap();
    assert_eq!(decoded.raw_ump_body, inner);
}

#[test]
fn test_decode_payload_v_to_v_accepts_raw_cbor() {
    let wire = BASE64.encode(audit_request());
    let decoded = decode_payload("peer_audit_request", &wire, None).unwrap();
    assert!(decoded.peer_audit_request.is_some());
}

#[test]
fn test_decode_payload_client_class_rejects_raw_cbor() {
    let wire = BASE64.encode(empty_request());
    let err = decode_payload("witness", &wire, None).err().unwrap();
    let msg = format!("{:?}", err);
    assert!(msg.contains("wire format violation"), "expected wire-format-violation error, got: {}", msg);
    assert!(msg.contains("witness"), "error must name the message type: {}", msg);
}

#[test]
fn test_decode_payload_v_to_v_rejects_envelope() {
    let wire = BASE64.encode(b"an envelope");
    let err = decode_payload("peer_audit_request", &wire, plain(audit_request())).err().unwrap();
    let msg = format!("{:?}", err);
    assert!(msg.contains("wire format violation"), "expected wire-format-violation error, got: {}", msg);
    assert!(msg.contains("raw CBOR"), "error must name the expected shape: {}", msg);
}

#[test]
fn test_encrypted_envelope_without_decryptor_drops() {
    let wire = BASE64.encode(b"a sealed envelope");
    let result = decode_payload_with_context("witness", &wire, Some(UmpEnvelope::Encrypted), None);
    assert!(matches!(result, Err(DecodeError::DecryptFailed)));
}

#[test]
fn sealed_envelope_is_read_once_opened() {
    let wire = BASE64.encode(b"a sealed envelope");
    let inner = empty_request();
    let result = decode_payload_with_context("witness", &wire, Some(UmpEnvelope::Encrypted), Some(inner.clone()));
    match result {
        Ok(p) => assert_eq!(p.raw_ump_body, inner),
        Err(_) => panic!("an opened envelope is read"),
    }
}

#[test]
fn scar_consent_email_roundtrip() {
    let notification = Value::Map(vec![
        (Value::Text("txid".into()), Value::Bytes(vec![0xCD; 32])),
        (Value::Text("sender_wallet_id".into()), Value::Text("alice@example.com/a1b2c3d4".into())),
        (Value::Text("receiver_wallet_id".into()), Value::Text("bob@example.com/deadbeef".into())),
        (Value::Text("amount".into()), Value::Integer(42_000_000.into())),
        (Value::Text("scar_count".into()), Value::Integer(3.into())),
        (Value::Text("passcode".into()), Value::Integer(917_244.into())),
    ]);
    let mut cbor = Vec::new();
    ciborium::into_writer(&notification, &mut cbor).unwrap();
    let bytes = build_scar_consent_email("validator@axiom", "bob@example.com", &cbor);
    let text = String::from_utf8(bytes.clone()).unwrap();
    assert!(text.contains("Subject: AXIOM/scar_consent/"));

    let parsed: Value = ciborium::from_reader(body_of(&bytes).as_slice()).expect("body CBOR");
    assert_eq!(parsed, Value::Map(vec![(Value::Text("scar_consent".into()), notification)]));
}

#[test]
fn peer_mails_carry_what_they_are_about() {
    let v = obj(vec![("a", JsonValue::PosInt(1))]);
    let cases = vec![
        (build_peer_audit_request_email("v@axiom", "w@axiom", &v), "peer_audit_request", "peer_audit_request"),
        (build_peer_audit_response_email("v@axiom", "w@axiom", &v), "peer_audit_response", "peer_audit_response"),
        (build_fanout_relay_email("v@axiom", "w@axiom", &v), "fanout", "fanout_message"),
    ];
    for (bytes, kind, field) in cases {
        let text = String::from_utf8(bytes.clone()).unwrap();
        assert!(text.contains(&format!("Subject: AXIOM/{kind}/")));
        assert!(text.contains("From: v@axiom\r\n"));
        assert!(text.contains("To: w@axiom\r\n"));
        let body = cbor_to_json(&body_of(&bytes)).unwrap();
        assert_eq!(body.get(field), Some(&v));
    }
}

#[test]
fn heal_mail_names_the_wallet() {
    let proof = obj(vec![("p", text("q"))]);
    let body = cbor_to_json(&body_of(&build_scar_heal_email("v@axiom", "w@axiom", &proof, "w@x/1"))).unwrap();
    assert_eq!(body.get("scar_recovery_proof"), Some(&proof));
    assert_eq!(body.get("target_wallet_id"), Some(&text("w@x/1")));
}

#[test]
fn cheque_mail_holds_the_cheque() {
    let cheque = json_to_cbor(&obj(vec![("amount", JsonValue::PosInt(5))]));
    let without = cbor_to_json(&body_of(&build_cheque_delivery_email("v@axiom", "w@axiom", &cheque, None))).unwrap();
    assert_eq!(without.get("cheque"), Some(&obj(vec![("amount", JsonValue::PosInt(5))])));
    let chain = json_to_cbor(&JsonValue::PosInt(9));
    let with = cbor_to_json(&body_of(&build_cheque_delivery_email("v@axiom", "w@axiom", &cheque, Some(&chain)))).unwrap();
    assert_eq!(with.get("cheque_fact_chain"), Some(&JsonValue::PosInt(9)));
}

#[test]
fn mail_that_was_written_is_read_back() {
    let bytes = build_peer_audit_request_email("v@axiom", "w@axiom", &obj(vec![("txid", text("t"))]));
    match parse_email_outcome(&bytes, None, None) {
        Ok(ParseOutcome::Parsed(m)) => {
            assert_eq!(m.from, "v@axiom");
            assert_eq!(m.to, "w@axiom");
            assert_eq!(m.message_type, "peer_audit_request");
            assert_eq!(m.payload.peer_audit_request, Some(obj(vec![("txid", text("t"))])));
        }
        _ => panic!("a mail of the library's own is readable"),
    }
}

#[test]
fn mail_without_a_subject_is_refused() {
    let raw = b"From: a@b.c\r\nTo: d@e.f\r\n\r\nAAAA";
    match parse_email(raw, None) {
        Ok(_) => panic!("no subject"),
        Err(e) => assert_eq!(
            e.to_text(),
            "Email parse error: Invalid subject format: . Expected: AXIOM/<type>/<request_id>"
        ),
    }
}

#[test]
fn only_peers_write_without_an_envelope() {
    assert!(requires_envelope("witness"));
    assert!(requires_envelope("redeem"));
    assert!(!requires_envelope("peer_audit_request"));
    assert!(!requires_envelope("peer_audit_response"));
    assert!(!requires_envelope("fanout_relay"));
}

#[test]
fn default_request_is_empty() {
    let p = AntiePayload::default();
    assert!(p.raw_ump_body.is_empty());
    assert!(p.fanout_message.is_none());
}

#[test]
fn rejects_wrong_size_keyfile() {
    let err = EnvelopeDecryptor::from_key_file("/k", Ok(vec![0u8; 16])).unwrap_err();
    assert!(format!("{:?}", err).contains("expected 32-byte Ed25519 seed"));
    // Sanity: the 32-byte file does load.
    EnvelopeDecryptor::from_key_file("/k", Ok(vec![0x42; 32])).unwrap();
}

#[test]
fn rejects_missing_keyfile() {
    let missing = Err("No such file or directory (os error 2)".to_string());
    let err = EnvelopeDecryptor::from_key_file("/nonexistent/ed25519.key", missing).unwrap_err();
    assert!(format!("{:?}", err).contains("private_key_path read failed"));
}

#[test]
fn key_file_gives_the_public_key() {
    let seed = [0x77u8; 32];
    let pk = ed25519_dalek::SigningKey::from_bytes(&seed).verifying_key().to_bytes();
    let decryptor = EnvelopeDecryptor::from_key_file("/k", Ok(seed.to_vec())).unwrap();
    assert_eq!(decryptor.ed25519_pk, pk);
    let montgomery = ed25519_dalek::SigningKey::from_bytes(&seed).verifying_key().to_montgomery().to_bytes();
    assert_eq!(decryptor.x25519_public_key(), Some(montgomery));
    let sk = decryptor.x25519_secret();
    assert_eq!(sk[0] & 7, 0);
    assert_eq!(sk[31] & 0xC0, 0x40);
    let opened = decryptor.open(&UmpEnvelope::Encrypted, Some(b"witness request body".to_vec()));
    assert_eq!(opened, Ok(b"witness request body".to_vec()));
    assert_eq!(decryptor.open(&UmpEnvelope::Encrypted, None), Err(()));
}

#[test]
fn rejects_plain_variant() {
    let decryptor = EnvelopeDecryptor::from_key_file("/k", Ok(vec![0x77; 32])).unwrap();
    let env = UmpEnvelope::Plain { ump_bytes: vec![1, 2, 3] };
    // Plain envelopes don't go through the decryptor — open() returns Err.
    assert!(decryptor.open(&env, Some(vec![1, 2, 3])).is_err());
    assert!(decryptor.open(&env, None).is_err());
}

#[test]
fn two_alternatives_in_a_mail_are_read() {
    let html = "--b\r\nContent-Type: text/html\r\n\r\n<p>x</p>\r\n";
    let plain = "Content-Type: text/plain\r\n\r\nAAAA\r\n";
    let raw = format!(
        "From: a@b.c\r\nTo: d@e.f\r\nSubject: AXIOM/witness/r-1\r\nContent-Type: multipart/mixed; boundary=m\r\n\r\n\
         --m\r\nContent-Type: multipart/alternative; boundary=b\r\n\r\n{html}{html}{html}--b\r\n{plain}--b--\r\n\
         --m\r\nContent-Type: multipart/alternative; boundary=c\r\n\r\n--c\r\n{plain}--c--\r\n--m--\r\n"
    );
    let letter = read_letter(raw.as_bytes()).ok().unwrap();
    assert_eq!(letter.request_id, "r-1");
    assert_eq!(letter.body, vec![0, 0, 0]);
}

fn payload_fault(j: &JsonValue) -> String {
    match read_payload(j, vec![]) {
        Ok(_) => panic!("nothing is wrong"),
        Err(e) => e.to_text(),
    }
}

fn serde_fault<T: for<'a> serde::Deserialize<'a>>(json: &str) -> String {
    let value: serde_json::Value = serde_json::from_str(json).unwrap();
    match serde_json::from_value::<T>(value) {
        Ok(_) => panic!("nothing is wrong"),
        Err(e) => format!("Email parse error: JSON→struct failed: {e}"),
    }
}

#[test]
fn faults_of_fields_read_as_those_of_serde() {
    let one = |name: &str, v: JsonValue| payload_fault(&obj(vec![(name, v)]));
    let list = |v: JsonValue| JsonValue::Array(vec![JsonValue::PosInt(1), v]);
    assert_eq!(one("txid", text("a\"b")), serde_fault::<Option<Vec<u8>>>("\"a\\\"b\""));
    assert_eq!(one("txid", list(JsonValue::PosInt(300))), serde_fault::<Option<Vec<u8>>>("[1,300]"));
    assert_eq!(one("txid", list(JsonValue::NegInt(-1))), serde_fault::<Option<Vec<u8>>>("[1,-1]"));
    assert_eq!(one("txid", list(JsonValue::Null)), serde_fault::<Option<Vec<u8>>>("[1,null]"));
    assert_eq!(one("txid", list(JsonValue::Float(1.5f64.to_bits()))), serde_fault::<Option<Vec<u8>>>("[1,1.5]"));
    assert_eq!(one("balance", JsonValue::NegInt(-1)), serde_fault::<Option<u64>>("-1"));
    assert_eq!(one("balance", JsonValue::Bool(true)), serde_fault::<Option<u64>>("true"));
    assert_eq!(one("chain_depth", JsonValue::PosInt(256)), serde_fault::<Option<u8>>("256"));
    assert_eq!(one("proof_cap", obj(vec![])), serde_fault::<Option<String>>("{}"));
    assert_eq!(one("proof_cap", JsonValue::Array(vec![])), serde_fault::<Option<String>>("[]"));
    assert_eq!(one("group_members", JsonValue::PosInt(1)), serde_fault::<Option<Vec<serde_json::Value>>>("1"));
    assert_eq!(one("issuer_set_hex", JsonValue::Null), serde_fault::<Vec<String>>("null"));
    assert_eq!(one("issuer_set_hex", list(JsonValue::Null)), serde_fault::<Vec<String>>("[1,null]"));
    assert!(read_payload(&obj(vec![("unknown", text("x")), ("query_params", text("x"))]), vec![]).is_ok());
}

#[test]
fn first_fault_of_a_body_counts() {
    let both = obj(vec![("txid", JsonValue::PosInt(1)), ("balance", text("x"))]);
    assert_eq!(payload_fault(&both), "Email parse error: JSON→struct failed: invalid type: string \"x\", expected u64");
    assert_eq!(
        payload_fault(&JsonValue::PosInt(5)),
        "Email parse error: JSON→struct failed: invalid type: integer `5`, expected struct AntiePayload"
    );
    let nulls = |n: usize| {
        let mut a: Vec<JsonValue> = (0..n).map(|_| JsonValue::Null).collect();
        if n > 15 {
            a[15] = JsonValue::Array(vec![]);
        }
        JsonValue::Array(a)
    };
    let short = |i: usize| {
        format!("Email parse error: JSON→struct failed: invalid length {i}, expected struct AntiePayload with 24 elements")
    };
    assert_eq!(payload_fault(&nulls(0)), short(0));
    assert_eq!(payload_fault(&nulls(3)), short(4));
    assert_eq!(payload_fault(&nulls(11)), short(12));
    assert_eq!(payload_fault(&nulls(14)), short(14));
    assert!(read_payload(&nulls(15), vec![]).is_ok());
    assert!(read_payload(&nulls(24), vec![]).is_ok());
    assert_eq!(
        payload_fault(&nulls(25)),
        "Email parse error: JSON→struct failed: invalid length 25, expected fewer elements in array"
    );
}
