use axiom_carriers::antie::carrier::IncomingMessage;
use axiom_carriers::antie::config::{AntieConfig, UncleSinkConfig, ValidatorConfig};
use axiom_carriers::antie::core_ipc::FanOutVerifyResult;
use axiom_carriers::antie::email::AntieEmail;
use axiom_carriers::antie::error::AntieError;
use axiom_carriers::antie::fanout::{fanout_message, relay_mails, relay_peers, FanOutMessage};
use axiom_carriers::antie::gateway::{
    batch, client_for, core_path, read_average, respond, route, sanitize_for_log, stats_url, unknown_type, CoreFound,
    Gateway, Mark, Route, Sender, MAX_MESSAGE_BYTES,
};
use axiom_carriers::antie::cbor::cbor_to_json;
use axiom_carriers::antie::config::LambdaConfig;
use axiom_carriers::antie::lambda_client::ValidatorHint;
use axiom_carriers::antie::payload::AntiePayload;
use axiom_carriers::antie::response::ResponsePayload;
use axiom_carriers::antie::witness::WitnessRequest;
use axiom_carriers::json::JsonValue;
use base64::engine::general_purpose::STANDARD as BASE64;
use base64::Engine;

fn make_email(message_type: &str) -> AntieEmail {
    AntieEmail {
        from: "test@example.com".into(),
        to: "antie@example.com".into(),
        message_type: message_type.into(),
        request_id: "req-001".into(),
        message_id: None,
        payload: AntiePayload::default(),
        raw: vec![],
        uncle_correlate: None,
    }
}

fn config() -> AntieConfig {
    let mut c = AntieConfig::generate_default();
    c.identity.email = "alpha@axiom.network".into();
    c
}

fn start(c: AntieConfig) -> Gateway {
    match Gateway::new(c, None, None, CoreFound::Loaded([0xAB; 32]), Ok(vec![]), Err("no key".into())) {
        Ok(g) => g,
        Err(e) => panic!("{}", e.to_text()),
    }
}

fn start_error(c: AntieConfig, core: CoreFound, key: Result<Vec<u8>, String>) -> String {
    match Gateway::new(c, None, None, core, Err("no ca".into()), key) {
        Ok(_) => panic!("the gateway started"),
        Err(e) => e.to_text(),
    }
}

fn request(wallet: &str, overlapped: usize) -> WitnessRequest {
    WitnessRequest {
        request_id: "".into(),
        requester_address: "".into(),
        overlapped_signatures: overlapped,
        sender_wallet_id: wallet.into(),
        receiver_wallet_id: "r@x/1".into(),
        receiver_address: None,
        produced_state_id: None,
        commitment_hash: None,
        cbor: vec![1, 2],
    }
}

fn obj(entries: Vec<(&str, JsonValue)>) -> JsonValue {
    JsonValue::object(entries.into_iter().map(|(k, v)| (k.to_string(), v)).collect())
}

#[test]
fn message_type_routing_known_types() {
    let known_types = [
        "witness", "redeem", "ack", "query", "validator_status",
        "init_genesis_dev", "vbc_sign_request", "vbc_sign_commit",
        "scar_heal", "set_auth_hash", "peer_audit_request",
        "peer_audit_response", "fanout_relay",
    ];
    for msg_type in &known_types {
        assert!(
            route(msg_type) != Route::Unknown,
            "Message type '{}' was not matched by routing table",
            msg_type
        );
    }
    assert_eq!(route("witness"), Route::Witness);
    assert_eq!(route("init_genesis_dev"), Route::GenesisDev);
    assert_eq!(route("Witness"), Route::Unknown);
    assert_eq!(route(""), Route::Unknown);
}

#[test]
fn tcp_routing_query_state_alias() {
    let aliases = ["query_state", "query"];
    for alias in &aliases {
        assert!(route(alias) == Route::Query, "'{}' should match query routing", alias);
    }
}

#[test]
fn unknown_message_type_produces_error_response() {
    let email = make_email("totally_bogus");
    let response = unknown_type(&email);
    assert!(!response.success);
    assert_eq!(response.rejection_code.as_deref(), Some("UNKNOWN_TYPE"));
    assert!(response.error.as_ref().unwrap().contains("totally_bogus"));
}

#[test]
fn error_response_echoes_request_id() {
    let email = make_email("witness");
    let error_payload = respond(&email, Err(AntieError::CoreError("something went wrong".into())));
    assert_eq!(error_payload.request_id, "req-001");
    assert_eq!(error_payload.rejection_code.as_deref(), Some("INTERNAL_ERROR"));
    assert_eq!(error_payload.error.as_deref(), Some("Core error: something went wrong"));
    assert!(!error_payload.success);
}

#[test]
fn message_type_sanitization() {
    let malicious = "witness\nINJECTED_LINE\r";
    let sanitized = sanitize_for_log(malicious);
    assert!(!sanitized.contains('\n'));
    assert!(!sanitized.contains('\r'));
    assert!(sanitized.contains("\\n"));
    assert!(sanitized.contains("\\r"));
    assert_eq!(sanitized, "witness\\nINJECTED_LINE\\r");
}

#[test]
fn gateway_starts_with_nothing_counted() {
    let mut c = config();
    c.outbound.uncle = Some(UncleSinkConfig { outbox_path: "/var/uncle".into() });
    let mut g = start(c);
    assert!(g.running);
    assert_eq!(g.stats.messages_received, 0);
    assert_eq!(g.stats.core_version, "ab".repeat(16));
    assert!(matches!(g.sender, Sender::Maildir(_)));
    assert_eq!(g.uncle_sink.as_ref().unwrap().outbox_path(), "/var/uncle");
    assert!(g.envelope_decryptor.is_none());
    g.stop();
    assert!(!g.running);
}

#[test]
fn what_keeps_a_gateway_from_starting() {
    let mut none = config();
    none.carriers.maildir = None;
    assert!(start_error(none, CoreFound::Loaded([0; 32]), Ok(vec![])).contains("at least one email carrier"));

    let mut imap = AntieConfig::generate_imap_example();
    imap.outbound.smtp = None;
    assert_eq!(
        start_error(imap, CoreFound::Loaded([0; 32]), Ok(vec![])),
        "Config error: No outbound carrier configured (need outbound.smtp or carriers.maildir)"
    );

    assert!(start_error(config(), CoreFound::Missing, Ok(vec![]))
        .starts_with("Config error: No AVM ELF found at \"./axiom-core.elf\". Set avm_elf_path in config"));
    assert_eq!(
        start_error(config(), CoreFound::Broken("bad elf".into()), Ok(vec![])),
        "Config error: Failed to load AVM ELF: bad elf"
    );

    let mut keyed = config();
    keyed.validator = ValidatorConfig { private_key_path: Some("/k".into()), ..Default::default() };
    assert!(start_error(keyed, CoreFound::Loaded([0; 32]), Ok(vec![0; 31])).contains("expected 32-byte Ed25519 seed"));

    let mut tls = config();
    tls.lambda = LambdaConfig::Tcp {
        address: "127.0.0.1:9000".into(),
        timeout_secs: 30,
        tls_server_name: Some("not a name".into()),
        tls_ca_cert_path: None,
    };
    assert!(start_error(tls, CoreFound::Loaded([0; 32]), Ok(vec![])).starts_with("Config error: TLS server name 'not a name': "));

    let mut ca = config();
    ca.lambda = LambdaConfig::Tcp {
        address: "127.0.0.1:9000".into(),
        timeout_secs: 30,
        tls_server_name: Some("lambda.example.com".into()),
        tls_ca_cert_path: Some("/ca.pem".into()),
    };
    assert_eq!(
        start_error(ca, CoreFound::Loaded([0; 32]), Ok(vec![])),
        "Config error: TLS CA cert /ca.pem: no ca"
    );
}

#[test]
fn key_file_makes_a_decryptor() {
    let mut c = config();
    c.validator = ValidatorConfig { private_key_path: Some("/k".into()), ..Default::default() };
    match Gateway::new(c, None, None, CoreFound::Loaded([0; 32]), Ok(vec![]), Ok(vec![7; 32])) {
        Ok(g) => assert!(g.envelope_decryptor.is_some()),
        Err(e) => panic!("{}", e.to_text()),
    }
}

#[test]
fn client_reaches_the_ledger_as_configured() {
    let ok = LambdaConfig::Tcp {
        address: "127.0.0.1:9000".into(),
        timeout_secs: 30,
        tls_server_name: Some("lambda.example.com".into()),
        tls_ca_cert_path: None,
    };
    assert!(client_for(&ok, Err("not looked at".into())).is_ok());
}

#[test]
fn core_is_looked_for_in_order() {
    let mut c = config();
    c.core.avm_elf_path = None;
    c.core.core_bin_path = None;
    assert_eq!(core_path(&c, None), "./axiom-core.elf");
    c.core.core_bin_path = Some("/opt/axiom/core".into());
    assert_eq!(core_path(&c, None), "/opt/axiom/axiom-core.elf");
    assert_eq!(core_path(&c, Some("/env.elf")), "/env.elf");
    c.core.avm_elf_path = Some("/conf.elf".into());
    assert_eq!(core_path(&c, Some("/env.elf")), "/conf.elf");
}

#[test]
fn startup_makes_the_carriers_known() {
    let mut c = config();
    c.performance.busy_threshold_ms = 1000;
    c.performance.lambda_admin_port = 9100;
    c.performance.lambda_admin_token = Some("t".into());
    let mut g = start(c);
    let s = match g.run(42) {
        Ok(s) => s,
        Err(e) => panic!("{}", e.to_text()),
    };
    assert_eq!(s.request_id, "set-carriers-startup-42");
    assert_eq!(s.carrier_uris, vec!["email:alpha@axiom.network".to_string()]);
    assert_eq!(s.stats_url.as_deref(), Some("http://127.0.0.1:9100/stats?token=t"));
    assert_eq!(g.stats.active_carriers, "maildir");
}

#[test]
fn stats_address_without_a_token() {
    assert_eq!(stats_url(7780, &None), "http://127.0.0.1:7780/stats");
}

#[test]
fn average_is_read_from_the_load_report() {
    assert_eq!(read_average("{\"a\":1,\"avg_witness_ms\": 250,\"b\":2}"), Some(250));
    assert_eq!(read_average("{\"avg_witness_ms\":7}"), Some(7));
    assert_eq!(read_average("{\"avg_witness_ms\":7"), None);
    assert_eq!(read_average("{\"avg_witness_ms\":-7}"), None);
    assert_eq!(read_average("{}"), None);
    let mut g = start(config());
    g.poll_lambda_stats("{\"avg_witness_ms\":40}");
    assert_eq!(g.stats.avg_witness_ms, 40);
    g.poll_lambda_stats("{}");
    assert_eq!(g.stats.avg_witness_ms, 40);
}

#[test]
fn requests_are_turned_away_when_the_wait_is_too_long() {
    let mut c = config();
    c.performance.busy_threshold_ms = 1000;
    let mut g = start(c);
    assert!(!g.should_reject_busy(1_000_000));
    g.stats.avg_witness_ms = 250;
    assert!(!g.should_reject_busy(4));
    assert!(g.should_reject_busy(5));
    assert!(g.take_up(0, 6));
    assert!(!g.take_up(1, 6));
    assert_eq!(g.stats.messages_received, 2);
    assert_eq!(g.stats.busy_rejections, 1);

    g.config.performance.busy_threshold_ms = 15_000;
    g.stats.avg_witness_ms = 5_000;
    assert!(!g.should_reject_busy(3));
    assert!(g.should_reject_busy(4));
    g.config.performance.busy_threshold_ms = 0;
    assert!(!g.should_reject_busy(4));
}

fn mail(id: &str) -> IncomingMessage {
    IncomingMessage { id: id.into(), raw: vec![], source: "".into() }
}

#[test]
fn batch_adds_up() {
    let mut c = config();
    c.performance.busy_threshold_ms = 100;
    let mut g = start(c);
    g.stats.avg_witness_ms = 60;
    let mails = batch(Ok(vec![mail("a"), mail("b"), mail("c"), mail("d")]));
    let outcomes = vec![Ok(()), Ok(()), Err(AntieError::IoError("gone".into())), Ok(())];
    let mut marks = vec![];
    for (i, outcome) in outcomes.into_iter().enumerate() {
        if g.take_up(i, mails.len()) {
            marks.push("away".to_string());
            continue;
        }
        marks.push(match g.finish(outcome) {
            Mark::Processed => "processed".to_string(),
            Mark::Failed(reason) => reason,
        });
    }
    assert_eq!(marks, vec!["away", "away", "IO error: gone", "processed"]);
    let s = &g.stats;
    assert_eq!((s.messages_received, s.busy_rejections, s.messages_processed, s.messages_failed), (4, 2, 1, 1));
    assert!(batch(Err(AntieError::IoError("x".into()))).is_empty());
}

#[test]
fn busy_answer_names_the_average() {
    let mut g = start(config());
    g.stats.avg_witness_ms = 250;
    let raw = format!(
        "From: a@b.c\r\nTo: d@e.f\r\nSubject: AXIOM/fanout_relay/r-9\r\nContent-Type: text/plain\r\n\r\n{}",
        BASE64.encode([0xA0])
    );
    let (mail, answer) = g.send_busy_rejection(raw.as_bytes(), None).unwrap();
    assert_eq!(mail.from, "a@b.c");
    assert_eq!(answer.request_id, "r-9");
    assert_eq!(answer.rejection_code.as_deref(), Some("E_VALIDATOR_BUSY"));
    assert_eq!(
        answer.error.as_deref(),
        Some("E_VALIDATOR_BUSY: estimated wait exceeds threshold (avg_witness_ms=250)")
    );
    assert!(g.send_busy_rejection(b"nonsense", None).is_none());
}

#[test]
fn dropped_mails_are_counted() {
    let mut g = start(config());
    assert!(g.take_in(&vec![b'x'; MAX_MESSAGE_BYTES + 1], None, None).is_none());
    assert_eq!(g.stats.oversize_dropped, 1);
    assert!(g.take_in(b"From: a@b.c\r\n\r\nAAAA", None, None).is_none());
    assert_eq!(g.stats.parse_fail, 1);
    let sealed = b"From: a@b.c\r\nTo: d@e.f\r\nSubject: AXIOM/witness/r\r\nContent-Type: text/plain\r\n\r\nAAAA";
    assert!(g
        .take_in(sealed, Some(axiom_carriers::antie::email::UmpEnvelope::Encrypted), None)
        .is_none());
    assert_eq!(g.stats.decrypt_fail, 1);
}

#[test]
fn ledger_requests_are_counted() {
    let mut g = start(config());
    assert!(g.track_lambda(Ok(5u8)).is_ok());
    assert!(g.track_lambda::<u8>(Err(AntieError::LambdaError("x".into()))).is_err());
    assert_eq!((g.stats.lambda_requests, g.stats.lambda_errors), (2, 1));
}

#[test]
fn second_request_of_a_wallet_waits() {
    let mut g = start(config());
    let email = make_email("witness");
    let second = 1_000_000_000;
    let q = match g.admit_witness(request("w@x/1", 0), &email, second, None) {
        Ok(q) => q,
        Err(e) => panic!("{}", e.to_text()),
    };
    assert_eq!(q.request_id, "req-001");
    assert_eq!(q.requester_address, "test@example.com");
    match g.admit_witness(request("w@x/1", 0), &email, second + 1_999_999_999, None) {
        Ok(_) => panic!("too soon"),
        Err(e) => assert_eq!(e.to_text(), "E_WALLET_RATE_LIMITED: wallet w@x/1 — retry after cooldown"),
    }
    assert_eq!(g.stats.rate_limited, 1);
    assert!(g.admit_witness(request("w@x/1", 2), &email, second, None).is_ok());
    assert!(g.admit_witness(request("w@x/1", 0), &email, second + 2_000_000_000, None).is_ok());
}

#[test]
fn banned_wallets_are_turned_away() {
    let mut c = config();
    c.nabla_ban_list_path = Some("/bans".into());
    let mut g = start(c);
    let email = make_email("witness");
    let list = Some("other@x/2\n  w@x/1 \n");
    assert!(g.check_ban_list(list, "w@x/1"));
    assert!(!g.check_ban_list(list, "w@x/9"));
    assert!(!g.check_ban_list(None, "w@x/1"));
    match g.admit_witness(request("w@x/1", 0), &email, 0, list) {
        Ok(_) => panic!("banned"),
        Err(e) => assert_eq!(e.to_text(), "E_WALLET_BANNED: wallet w@x/1 is banned (YP §32)"),
    }
    assert_eq!(g.stats.ban_rejected, 1);
    assert!(!start(config()).check_ban_list(list, "w@x/1"));
}

#[test]
fn answers_go_to_who_asked() {
    let mut c = config();
    c.outbound.uncle = Some(UncleSinkConfig { outbox_path: "/var/uncle".into() });
    let mut g = start(c);
    let mut email = make_email("witness");
    email.message_id = Some("m-1@x".into());
    email.uncle_correlate = Some([0x77; 32]);
    let answer = ResponsePayload::bare(false, "req-001", Some("why".into()), Some("CODE"));
    let out = match g.send_response(&email, &answer, 5, 6) {
        Ok(o) => o,
        Err(e) => panic!("{}", e.to_text()),
    };
    assert_eq!(out.to, "test@example.com");
    let text = String::from_utf8(out.mail).unwrap();
    assert!(text.contains("From: alpha@axiom.network\r\n"));
    assert!(text.contains("To: test@example.com\r\n"));
    assert!(text.contains("Subject: AXIOM/error/req-001\r\n"));
    let body = BASE64.decode(text.split("\r\n\r\n").nth(1).unwrap().trim()).unwrap();
    let json = cbor_to_json(&body).unwrap();
    assert_eq!(json.get("success"), Some(&JsonValue::Bool(false)));
    assert_eq!(json.get("request_id"), Some(&JsonValue::Str("req-001".into())));
    assert_eq!(json.get("error"), Some(&JsonValue::Str("why".into())));
    assert_eq!(json.get("rejection_code"), Some(&JsonValue::Str("CODE".into())));
    assert_eq!(json.get("txid"), None);
    let (draft, copy) = out.copy.unwrap();
    assert!(draft.starts_with("/var/uncle/.uncle_tee.tmp."));
    assert_eq!(copy, format!("/var/uncle/{}.cbor", "77".repeat(32)));
    g.count_sent();
    assert_eq!(g.stats.emails_sent, 1);
}

#[test]
fn bytes_of_an_answer_stay_bytes() {
    let mut answer = ResponsePayload::bare(true, "r", None, None);
    answer.commitment_hash = Some(vec![0xBB; 32]);
    let value: ciborium::Value = ciborium::from_reader(answer.to_cbor().ok().unwrap().as_slice()).unwrap();
    let map = value.into_map().unwrap();
    let hash = map.into_iter().find(|(k, _)| k.as_text() == Some("commitment_hash")).unwrap().1;
    assert_eq!(hash, ciborium::Value::Bytes(vec![0xBB; 32]));
}

#[test]
fn query_data_is_written_as_ciborium_writes_it() {
    let list = JsonValue::Array(vec![JsonValue::PosInt(1), JsonValue::PosInt(2), JsonValue::Float(0.1f64.to_bits())]);
    let mut answer = ResponsePayload::bare(true, "r", None, None);
    answer.query_data = Some(obj(vec![("b", list), ("a", JsonValue::NegInt(-7)), ("c", JsonValue::Null)]));
    let bytes = answer.to_cbor().ok().unwrap();
    let value: serde_json::Value = serde_json::from_str("{\"a\":-7,\"b\":[1,2,0.1],\"c\":null}").unwrap();
    let mut known = Vec::new();
    ciborium::into_writer(&value, &mut known).unwrap();
    assert!(bytes.ends_with(&known));

    let mut deep = JsonValue::Null;
    for _ in 0..200 {
        deep = JsonValue::Array(vec![deep]);
    }
    answer.query_data = Some(deep);
    match answer.to_cbor() {
        Ok(_) => panic!("nested too deep"),
        Err(e) => assert!(e.to_text().starts_with("Serialization error: CBOR encode: recursion limit")),
    }
}

fn fanout(fan: u8) -> FanOutMessage {
    FanOutMessage {
        diffusion_id: [9; 32],
        fanout: fan,
        content_type: 1,
        whole: obj(vec![("ttl_current", JsonValue::PosInt(3)), ("x", JsonValue::Null)]),
    }
}

fn accepted(ttl: u8) -> Result<FanOutVerifyResult, AntieError> {
    Ok(FanOutVerifyResult { accepted: true, new_ttl: ttl, rejection_reason: None })
}

#[test]
fn fanout_messages_are_handled_once() {
    let mut g = start(config());
    let email = make_email("fanout_relay");
    let m = fanout(9);
    let (answer, relay, _) = g.handle_fanout_relay(&email, &m, &Ok(false), accepted(2));
    assert!(matches!(answer, Ok(p) if p.success));
    let relay = relay.unwrap();
    assert_eq!(relay.limit, 3);
    assert_eq!(relay.message.get("ttl_current"), Some(&JsonValue::PosInt(2)));
    let (answer, relay, _) = g.handle_fanout_relay(&email, &m, &Ok(false), accepted(2));
    assert!(matches!(answer, Ok(p) if p.success));
    assert!(relay.is_none());
}

#[test]
fn refused_fanout_messages_are_not_remembered() {
    let mut g = start(config());
    let email = make_email("fanout_relay");
    let refused = Ok(FanOutVerifyResult { accepted: false, new_ttl: 0, rejection_reason: Some("bad".into()) });
    let (answer, relay, _) = g.handle_fanout_relay(&email, &fanout(1), &Ok(false), refused);
    assert!(relay.is_none());
    match answer {
        Ok(p) => {
            assert!(!p.success);
            assert_eq!(p.rejection_code.as_deref(), Some("CL10_FANOUT_REJECTED"));
            assert_eq!(p.error.as_deref(), Some("bad"));
        }
        Err(e) => panic!("{}", e.to_text()),
    }
    assert!(g.fanout_known(&email, &fanout(1)).is_none());
}

#[test]
fn last_hop_is_not_passed_on() {
    let mut g = start(config());
    let (_, relay, _) = g.handle_fanout_relay(&make_email("fanout_relay"), &fanout(3), &Ok(false), accepted(0));
    assert!(relay.is_none());
}

#[test]
fn fanout_message_must_be_there() {
    assert!(fanout_message(&make_email("fanout_relay"), Err("x".into())).is_err());
}

fn hint(carriers: Vec<&str>) -> ValidatorHint {
    ValidatorHint { carriers: carriers.into_iter().map(|s| s.to_string()).collect(), cbor: vec![] }
}

#[test]
fn peers_are_reached_by_mail() {
    let hints = vec![
        hint(vec!["email:a@x"]),
        hint(vec!["tot:h:1"]),
        hint(vec!["email:b@x"]),
        hint(vec!["email:c@x"]),
    ];
    assert_eq!(relay_peers(&hints, 2), vec!["a@x".to_string(), "b@x".to_string()]);
    let mut g = start(config());
    let (_, relay, _) = g.handle_fanout_relay(&make_email("fanout_relay"), &fanout(2), &Ok(false), accepted(1));
    let mails = relay_mails("v@axiom", &hints, &relay.unwrap());
    assert_eq!(mails.iter().map(|d| d.to.as_str()).collect::<Vec<_>>(), vec!["a@x", "b@x"]);
}
