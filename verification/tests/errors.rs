use axiom_carriers::antie::error::AntieError;
use axiom_carriers::antie::error_response::{dual_format_error_body, ErrorCategory, ErrorResponse};

#[test]
fn validation_failed_maps_to_protocol_reject() {
    let err = AntieError::ValidationFailed("bad sig".into());
    let resp = ErrorResponse::from_error(&err);
    assert_eq!(resp.code.as_str(), "E_ANTIE_VALIDATION_FAILED");
    assert_eq!(resp.category, ErrorCategory::ProtocolReject);
}

#[test]
fn rate_limited_is_operational() {
    let err = AntieError::RateLimited("too many requests".into());
    let resp = ErrorResponse::from_error(&err);
    assert_eq!(resp.code.as_str(), "E_ANTIE_RATE_LIMITED");
    assert_eq!(resp.category, ErrorCategory::Operational);
}

#[test]
fn core_ttl_expired_preserves_message() {
    let err = AntieError::CoreTTLExpired("tick 12345".into());
    let resp = ErrorResponse::from_error(&err);
    assert!(resp.message.contains("12345"));
}

#[test]
fn io_error_is_internal() {
    let cause = std::io::Error::new(std::io::ErrorKind::NotFound, "file missing");
    let err = AntieError::IoError(cause.to_string());
    let resp = ErrorResponse::from_error(&err);
    assert_eq!(resp.category, ErrorCategory::Internal);
}

#[test]
fn wallet_banned_maps_to_protocol_reject() {
    let err = AntieError::WalletBanned("E_WALLET_BANNED: wallet abc123 is banned (YP §32)".into());
    let resp = ErrorResponse::from_error(&err);
    assert_eq!(resp.code.as_str(), "E_ANTIE_WALLET_BANNED");
    assert_eq!(resp.category, ErrorCategory::ProtocolReject);
    assert!(resp.message.contains("abc123"));
}

#[test]
fn dual_format_error_body_has_both_fields() {
    let body = dual_format_error_body("E_ANTIE_UNAUTHORIZED", ErrorCategory::ClientBug, "unauthorized");
    let parsed: serde_json::Value = serde_json::from_str(&body).expect("valid JSON");
    assert_eq!(parsed["error"], "unauthorized");
    let er = &parsed["error_response"];
    assert_eq!(er["version"], 1);
    assert_eq!(er["code"], "E_ANTIE_UNAUTHORIZED");
    assert_eq!(er["category"], "client_bug");
    assert_eq!(er["message"], "unauthorized");
}

#[test]
fn dual_format_error_body_decodes_to_error_response() {
    let body = dual_format_error_body("E_ANTIE_NOT_FOUND", ErrorCategory::ClientBug, "not found");
    let parsed: serde_json::Value = serde_json::from_str(&body).unwrap();
    let er = &parsed["error_response"];
    assert_eq!(er["code"].as_str(), Some("E_ANTIE_NOT_FOUND"));
    assert_eq!(er["category"].as_str(), Some("client_bug"));
}

#[test]
fn every_error_says_what_it_is() {
    let cases: Vec<(AntieError, &str)> = vec![
        (AntieError::MaildirError("m".into()), "Maildir error: m"),
        (AntieError::EmailParseError("m".into()), "Email parse error: m"),
        (AntieError::InvalidPayload("m".into()), "Invalid payload: m"),
        (AntieError::CoreError("m".into()), "Core error: m"),
        (AntieError::ValidationFailed("m".into()), "Validation failed: m"),
        (AntieError::LambdaError("m".into()), "Lambda error: m"),
        (AntieError::IoError("m".into()), "IO error: m"),
        (AntieError::ConfigError("m".into()), "Config error: m"),
        (AntieError::SerializationError("m".into()), "Serialization error: m"),
    ];
    for (e, text) in cases {
        assert_eq!(e.to_text(), text);
    }
}
