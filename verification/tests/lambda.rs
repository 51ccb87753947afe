use axiom_carriers::antie::core_ipc::{
    cl10_inputs, cl2_inputs, validate_transaction_cl2, verify_fanout_cl10, Cl2Outcome, CoreLogicMode, CoreOutputs,
    ValidationResult,
};
use axiom_carriers::antie::lambda_client::{
    check_ca, fanout_request_id, frame, lambda_log_path, parse_ack_response, parse_fanout_dedup, parse_set_carriers_ack,
    response_length, AckResponse, ErrorInfo, GatewayResponse, LambdaClient, LambdaClientConfig, LambdaConnectionMode,
    LambdaMode, LambdaScarHealRequest, MAX_FRAME_BYTES,
};
use axiom_carriers::json::JsonValue;
use base64::engine::general_purpose::STANDARD as BASE64;
use base64::Engine;

#[test]
fn frame_size_limit_constant() {
    let limit: usize = 10 * 1024 * 1024;
    assert_eq!(limit, 10_485_760);
    assert_eq!(MAX_FRAME_BYTES as usize, limit);

    // A frame of exactly 10MB should be accepted (the check is >)
    assert_eq!(response_length(&10_485_760u32.to_be_bytes()).unwrap(), limit);
    // A frame of 10MB + 1 should be rejected
    assert!(response_length(&10_485_761u32.to_be_bytes()).is_err());
}

#[test]
fn frames_start_with_their_length() {
    let f = frame(b"hello");
    assert_eq!(f, b"\0\0\0\x05hello".to_vec());
    assert_eq!(response_length(&[f[0], f[1], f[2], f[3]]).unwrap(), 5);
}

#[test]
fn lambda_client_new_tcp() {
    let client = LambdaClient::new_tcp("127.0.0.1:9000", 30);
    match client.mode() {
        LambdaMode::Tcp { address, timeout_secs, server_name, .. } => {
            assert_eq!(address, "127.0.0.1:9000");
            assert_eq!(*timeout_secs, 30);
            assert!(server_name.is_none());
        }
        _ => panic!("a connection"),
    }
}

#[test]
fn lambda_client_new_subprocess() {
    let client = LambdaClient::new_subprocess("/usr/bin/lambda".into(), "/etc/lambda.toml".into());
    match client.mode() {
        LambdaMode::Subprocess { binary_path, config_path } => {
            assert_eq!(binary_path, "/usr/bin/lambda");
            assert_eq!(config_path, "/etc/lambda.toml");
        }
        _ => panic!("a process"),
    }
}

#[test]
fn tls_names_are_checked() {
    assert!(LambdaClient::new_tcp_tls("1.2.3.4:1", 5, "lambda.example.com", None, Err("no file".into())).is_ok());
    match LambdaClient::new_tcp_tls("1.2.3.4:1", 5, "not a name", None, Ok(vec![])) {
        Ok(_) => panic!("not a server name"),
        Err(e) => assert!(e.to_text().starts_with("Config error: TLS server name 'not a name': ")),
    }
}

/// A certificate with nothing in it but its structure.
fn bare_certificate() -> Vec<u8> {
    let mut der = vec![0x30, 0x1A, 0x30, 0x12, 0xA0, 0x03, 0x02, 0x01, 0x02, 0x02, 0x01, 0x01];
    der.extend([0x30, 0x00].repeat(6));
    der.extend([0x03, 0x02, 0x00, 0x00]);
    der
}

fn pem(label: &str, content: &[u8]) -> String {
    format!("-----BEGIN {label}-----\n{}\n-----END {label}-----\n", BASE64.encode(content))
}

fn tls_fault(ca: Result<Vec<u8>, String>) -> String {
    match LambdaClient::new_tcp_tls("1.2.3.4:1", 5, "lambda.example.com", Some("/ca.pem"), ca) {
        Ok(_) => panic!("the certificates are not in order"),
        Err(e) => e.to_text(),
    }
}

#[test]
fn certificates_of_the_ledger_are_checked() {
    let good = format!("{}{}{}", pem("CERTIFICATE", &bare_certificate()), pem("CERTIFICATE REQUEST", b"x"), pem("CERTIFICATE", &bare_certificate()));
    assert_eq!(check_ca(good.as_bytes()).ok(), Some(vec![bare_certificate(), bare_certificate()]));
    assert_eq!(check_ca(b"").ok(), Some(vec![]));
    match LambdaClient::new_tcp_tls("h:1", 5, "lambda.example.com", Some("/ca.pem"), Ok(good.into_bytes())) {
        Ok(c) => match c.mode() {
            LambdaMode::Tcp { ca_certs, .. } => assert_eq!(ca_certs, &Some(vec![bare_certificate(), bare_certificate()])),
            _ => panic!("a connection"),
        },
        Err(e) => panic!("{}", e.to_text()),
    }
    assert_eq!(tls_fault(Err("No such file".into())), "Config error: TLS CA cert /ca.pem: No such file");
    let open = "-----BEGIN CERTIFICATE-----\nAAAA\n".as_bytes().to_vec();
    assert!(tls_fault(Ok(open)).starts_with("Config error: TLS CA parse: section end"));
    let junk = pem("CERTIFICATE", b"no certificate").into_bytes();
    assert!(tls_fault(Ok(junk)).starts_with("Config error: TLS CA add: invalid peer certificate: "));
    let late = format!("{}{}", pem("CERTIFICATE", &bare_certificate()), pem("CERTIFICATE", b"junk"));
    assert!(tls_fault(Ok(late.into_bytes())).starts_with("Config error: TLS CA add: "));
}

#[test]
fn certificates_are_checked_before_the_name() {
    match LambdaClient::new_tcp_tls("h:1", 5, "not a name", Some("/ca.pem"), Err("gone".into())) {
        Ok(_) => panic!("no file"),
        Err(e) => assert_eq!(e.to_text(), "Config error: TLS CA cert /ca.pem: gone"),
    }
}

#[test]
fn client_from_its_configuration() {
    let c = LambdaClientConfig {
        mode: LambdaConnectionMode::Tcp { address: "h:1".into(), timeout_secs: 9 },
    };
    match LambdaClient::from_config(&c).mode() {
        LambdaMode::Tcp { address, timeout_secs, .. } => assert_eq!((address.as_str(), *timeout_secs), ("h:1", 9)),
        _ => panic!("a connection"),
    }
}

fn failure() -> GatewayResponse {
    GatewayResponse::Failure {
        request_id: "err-1".into(),
        error_response: ErrorInfo {
            code: "E_LAMBDA_INVALID_REQUEST".into(),
            message: "something failed".into(),
            cbor: vec![],
        },
    }
}

#[test]
fn answers_are_of_the_kind_asked_for() {
    let ok = GatewayResponse::AckResult(AckResponse { request_id: "a".into(), success: true, error_response: None });
    assert!(matches!(parse_ack_response(ok), Ok(a) if a.success));
    assert!(matches!(parse_fanout_dedup(GatewayResponse::FanOutDedupResult { already_seen: true }), Ok(true)));
    assert!(matches!(parse_set_carriers_ack(GatewayResponse::SetCarriersAck { accepted: 3 }), Ok(3)));
    match parse_ack_response(failure()) {
        Ok(a) => {
            assert!(!a.success);
            assert_eq!(a.request_id, "");
            assert_eq!(a.error_response.unwrap().message, "something failed");
        }
        Err(e) => panic!("{}", e.to_text()),
    }
    assert!(parse_ack_response(GatewayResponse::FanOutMarkResult).is_err());
}

#[test]
fn log_goes_beside_the_configuration() {
    assert_eq!(lambda_log_path(Some("/var/log/l.log"), "/etc/x/lambda.toml"), "/var/log/l.log");
}

#[test]
fn fanout_requests_are_named_after_the_message() {
    assert_eq!(fanout_request_id("dedup-", &[0xAB; 32]), format!("dedup-{}", "ab".repeat(8)));
}

fn value_of(cbor: &[u8]) -> serde_json::Value {
    ciborium::from_reader(cbor).unwrap()
}

#[test]
fn requests_name_their_kind() {
    let client = LambdaClient::new_tcp("127.0.0.1:9000", 30);
    let status = value_of(&client.send_validator_status_request("s-1"));
    assert_eq!(status["type"], "validator_status");
    assert_eq!(status["request_id"], "s-1");

    let health = value_of(&client.health_check());
    assert_eq!(health["type"], "health");
    assert_eq!(health["request_id"].as_str().unwrap().len(), "health-".len() + 36);

    let auth = value_of(&client.send_set_auth_hash_request("a-1", &[1, 200], &[7; 32]));
    assert_eq!(auth["type"], "set_auth_hash");
    assert_eq!(auth["public_key"], serde_json::Value::from(vec![1, 200]));
    assert_eq!(auth["auth_hash"].as_array().unwrap().len(), 32);

    let dedup = value_of(&client.send_fanout_dedup(&[0xAB; 32]));
    assert_eq!(dedup["type"], "fanout_dedup");
    assert_eq!(dedup["request_id"], format!("dedup-{}", "ab".repeat(8)));
    assert_eq!(dedup["diffusion_id"], serde_json::Value::from(vec![0xAB; 32]));

    let mark = value_of(&client.send_fanout_mark(&[0xAB; 32]));
    assert_eq!(mark["type"], "fanout_mark");
    assert_eq!(mark["request_id"], format!("mark-{}", "ab".repeat(8)));
}

#[test]
fn heal_request_holds_the_proof() {
    let client = LambdaClient::new_tcp("127.0.0.1:9000", 30);
    let request = LambdaScarHealRequest {
        request_type: "scar_heal".into(),
        request_id: "h-1".into(),
        scar_recovery_proof: JsonValue::Array(vec![
            JsonValue::PosInt(5),
            JsonValue::Float(1.5f64.to_bits()),
            JsonValue::Str("x".into()),
        ]),
        target_wallet_id: "w@x/1".into(),
    };
    let bytes = client.send_scar_heal_request(&request).ok().unwrap();
    let heal = value_of(&bytes);
    assert_eq!(heal["request_type"], "scar_heal");
    assert_eq!(heal["request_id"], "h-1");
    assert_eq!(heal["scar_recovery_proof"].to_string(), "[5,1.5,\"x\"]");
    // The proof stands there as ciborium writes it.
    let mut proof = Vec::new();
    ciborium::into_writer(&heal["scar_recovery_proof"], &mut proof).unwrap();
    assert!(bytes.windows(proof.len()).any(|w| w == proof.as_slice()));
    assert_eq!(heal["target_wallet_id"], "w@x/1");
}

fn outputs(result: ValidationResult, reason: Option<&str>) -> CoreOutputs {
    CoreOutputs {
        result,
        rejection_reason: reason.map(|s| s.to_string()),
        produced_state_id: Some([1; 32]),
        new_wallet_seq: Some(4),
        commitment_hash: Some([2; 32]),
        fanout_new_ttl: Some(6),
    }
}

#[test]
fn core_verdicts() {
    match validate_transaction_cl2(Ok(outputs(ValidationResult::Accept, None))) {
        Cl2Outcome::Answer(Ok(v)) => {
            assert!(v.accepted);
            assert_eq!(v.new_state_id, Some([1; 32]));
            assert_eq!(v.new_wallet_seq, Some(4));
            assert_eq!(v.commitment_hash, Some([2; 32]));
        }
        _ => panic!("accepted"),
    }
    match validate_transaction_cl2(Ok(outputs(ValidationResult::Reject, Some("no")))) {
        Cl2Outcome::Answer(Ok(v)) => {
            assert!(!v.accepted);
            assert_eq!(v.rejection_reason.as_deref(), Some("no"));
        }
        _ => panic!("rejected"),
    }
    assert!(matches!(
        validate_transaction_cl2(Ok(outputs(ValidationResult::Fatal, Some("x")))),
        Cl2Outcome::ShutDown { status: 78, .. }
    ));
    assert!(matches!(validate_transaction_cl2(Err("broken".into())), Cl2Outcome::Answer(Err(_))));
    match verify_fanout_cl10(Ok(outputs(ValidationResult::Accept, None))) {
        Ok(v) => assert_eq!((v.accepted, v.new_ttl), (true, 6)),
        Err(e) => panic!("{}", e.to_text()),
    }
}

#[test]
fn core_is_handed_what_it_checks() {
    let i = cl2_inputs(vec![1], vec![vec![2]], vec![vec![3]], Some(vec![4]), None, Some(vec![5]));
    assert_eq!(i.mode, CoreLogicMode::Cl2Prefilter);
    assert_eq!(i.transaction, Some(vec![1]));
    assert_eq!(i.prev_receipts, vec![vec![2]]);
    assert_eq!(i.overlapped_signatures, vec![vec![3]]);
    let j = cl10_inputs(vec![7], None);
    assert_eq!(j.mode, CoreLogicMode::Cl10);
    assert_eq!(j.fanout_message, Some(vec![7]));
}
