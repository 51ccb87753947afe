use axiom_carriers::antie::cbor::{cbor_to_json, json_to_cbor};
use axiom_carriers::antie::core_ipc::ValidationOutput;
use axiom_carriers::antie::email::AntieEmail;
use axiom_carriers::antie::error::AntieError;
use axiom_carriers::antie::handlers::{
    ack_answer, ack_request, decode_failure, genesis_answer, genesis_request, ledger_heal_request, peer_audit_answer,
    peer_audit_noted, peer_audit_request, peer_audit_response, query_answer, query_request, redeem_answer,
    redeem_request, scar_heal_answer, scar_heal_request, set_auth_hash_answer, set_auth_hash_request, vbc_answer,
    vbc_sign_commit, vbc_sign_request, RedeemRequest, VbcResponse, VbcSignRequest,
};
use axiom_carriers::antie::lambda_client::{
    AckResponse, DownstreamTarget, GenesisResponse, OutboundPeerAudit, PeerAuditResult, QueryResponse, RedeemResponse,
    RejectionInfo, ScarHealResponse, SetAuthHashResponse, ValidatorCheque, WalletState, WitnessResponse,
};
use axiom_carriers::antie::payload::AntiePayload;
use axiom_carriers::antie::skip_list::SkipList;
use axiom_carriers::antie::witness::{
    after_core, clean_body, deliveries, delivery_update, deserialize_witness_request, find_receiver, is_mailed,
    witness_answer, CoreStep, TxKind, WitnessRequest,
};
use axiom_carriers::json::JsonValue;
use base64::engine::general_purpose::STANDARD as BASE64;
use base64::Engine;
use ciborium::Value;

fn obj(entries: Vec<(&str, JsonValue)>) -> JsonValue {
    JsonValue::object(entries.into_iter().map(|(k, v)| (k.to_string(), v)).collect())
}

fn text(s: &str) -> JsonValue {
    JsonValue::Str(s.to_string())
}

fn email(payload: AntiePayload) -> AntieEmail {
    AntieEmail {
        from: "test@example.com".into(),
        to: "antie@example.com".into(),
        message_type: "x".into(),
        request_id: "req-001".into(),
        message_id: None,
        payload,
        raw: vec![],
        uncle_correlate: None,
    }
}

fn refusal<T>(r: Result<T, AntieError>) -> String {
    match r {
        Ok(_) => panic!("the request was taken"),
        Err(e) => e.to_text(),
    }
}

fn taken<T>(r: Result<T, AntieError>) -> T {
    match r {
        Ok(v) => v,
        Err(e) => panic!("{}", e.to_text()),
    }
}

#[test]
fn vbc_sign_request_type_field_rename() {
    let req = VbcSignRequest {
        request_type: "vbc_sign_request".into(),
        request_id: "vbc-1".into(),
        sphincs_pk_hex: "aa".into(),
        dilithium_pk_hex: "bb".into(),
        ed25519_pk_hex: "cc".into(),
        pgp_fingerprint_hex: "dd".into(),
        proof_cap: "DMAP".into(),
        node_name: "n1".into(),
        issued_at: None,
        expires_at: None,
        chain_depth: None,
        issuer_set_hex: vec![],
    };
    let json = req.to_json();
    assert_eq!(json.get("type"), Some(&text("vbc_sign_request")));
    assert!(json.get("request_type").is_none());
    assert!(json.get("issued_at").is_none());
    assert!(json.get("expires_at").is_none());
    assert!(json.get("chain_depth").is_none());
    assert!(json.get("issuer_set_hex").is_none());
    assert_eq!(json.get("node_name"), Some(&text("n1")));
}

#[test]
fn signing_requests_are_maps_in_declared_order() {
    let mut req = VbcSignRequest {
        request_type: "vbc_sign_commit".into(),
        request_id: "vbc-2".into(),
        sphincs_pk_hex: "aa".into(),
        dilithium_pk_hex: "bb".into(),
        ed25519_pk_hex: "cc".into(),
        pgp_fingerprint_hex: "".into(),
        proof_cap: "DMAP".into(),
        node_name: "n1".into(),
        issued_at: Some(1_700_000_000),
        expires_at: Some(7),
        chain_depth: Some(2),
        issuer_set_hex: vec!["01".into(), "02".into()],
    };
    let word = |s: &str| Value::Text(s.to_string());
    let mut fields = vec![
        (word("type"), word("vbc_sign_commit")),
        (word("request_id"), word("vbc-2")),
        (word("sphincs_pk_hex"), word("aa")),
        (word("dilithium_pk_hex"), word("bb")),
        (word("ed25519_pk_hex"), word("cc")),
        (word("pgp_fingerprint_hex"), word("")),
        (word("proof_cap"), word("DMAP")),
        (word("node_name"), word("n1")),
        (word("issued_at"), Value::Integer(1_700_000_000.into())),
        (word("expires_at"), Value::Integer(7.into())),
        (word("chain_depth"), Value::Integer(2.into())),
        (word("issuer_set_hex"), Value::Array(vec![word("01"), word("02")])),
    ];
    let mut expected = Vec::new();
    ciborium::into_writer(&Value::Map(fields.clone()), &mut expected).unwrap();
    assert_eq!(req.to_cbor(), expected);

    req.issued_at = None;
    req.expires_at = None;
    req.chain_depth = None;
    req.issuer_set_hex = vec![];
    fields.truncate(8);
    let mut expected = Vec::new();
    ciborium::into_writer(&Value::Map(fields), &mut expected).unwrap();
    assert_eq!(req.to_cbor(), expected);
    assert_eq!(req.to_cbor()[..6], [0xa8, 0x64, b't', b'y', b'p', b'e']);
}

#[test]
fn vbc_response_deserialize() {
    let resp = VbcResponse::from_json(&obj(vec![("success", JsonValue::Bool(true))])).unwrap();
    assert!(resp.success);
    assert!(resp.error.is_none());

    let json2 = obj(vec![("success", JsonValue::Bool(false)), ("error", text("budget exceeded"))]);
    let resp2 = VbcResponse::from_json(&json2).unwrap();
    assert!(!resp2.success);
    assert_eq!(resp2.error.as_deref(), Some("budget exceeded"));

    assert!(VbcResponse::from_json(&JsonValue::Null).is_none());
}

#[test]
fn query_needs_a_wallet() {
    let key = JsonValue::Array(vec![JsonValue::PosInt(1), JsonValue::PosInt(255)]);
    let asked = AntiePayload { query_params: Some(obj(vec![("wallet_pk", key)])), ..Default::default() };
    assert_eq!(taken(query_request(&email(asked))), vec![1, 255]);
    assert_eq!(
        refusal(query_request(&email(AntiePayload::default()))),
        "Invalid payload: Query requires query_params.wallet_pk (byte array)"
    );
}

#[test]
fn query_tells_the_state() {
    let m = email(AntiePayload::default());
    let state = WalletState { balance: 7, wallet_seq: 2, public_key: vec![1], state_id: vec![2] };
    let found = query_answer(&m, &QueryResponse { found: true, wallet_state: Some(state) });
    assert!(found.success);
    assert_eq!(found.query_data.unwrap().get("balance"), Some(&JsonValue::PosInt(7)));
    let missing = query_answer(&m, &QueryResponse { found: false, wallet_state: None });
    assert_eq!(missing.error.as_deref(), Some("Wallet not found"));
    assert_eq!(missing.rejection_code.as_deref(), Some("NOT_FOUND"));
}

#[test]
fn genesis_needs_a_key_and_a_balance() {
    let m = email(AntiePayload { public_key: Some(vec![1]), balance: Some(5), ..Default::default() });
    let q = taken(genesis_request(&m, None));
    assert_eq!((q.public_key, q.balance, q.request_id.as_str()), (vec![1], 5, "req-001"));
    assert_eq!(refusal(genesis_request(&email(AntiePayload::default()), None)), "Invalid payload: Missing public_key");
    let no_balance = email(AntiePayload { public_key: Some(vec![1]), ..Default::default() });
    assert_eq!(refusal(genesis_request(&no_balance, None)), "Invalid payload: Missing balance");
    let failed = genesis_answer(&m, GenesisResponse { success: false, state_id: None, error: Some("e".into()) });
    assert_eq!(failed.rejection_code.as_deref(), Some("GENESIS_FAILED"));
    assert_eq!(failed.error.as_deref(), Some("e"));
}

#[test]
fn redeem_body_must_be_readable() {
    let m = email(AntiePayload { raw_ump_body: vec![0; 9], ..Default::default() });
    assert_eq!(
        refusal(redeem_request(&m, Err("bad".into()))),
        "Invalid payload: RedeemRequestEnvelope CBOR decode failed: bad (body_len=9)"
    );
    assert_eq!(decode_failure("K", "f", 3).to_text(), "Invalid payload: K CBOR decode failed: f (body_len=3)");
    let q = taken(redeem_request(&m, Ok(RedeemRequest { request_id: "".into(), cbor: vec![1] })));
    assert_eq!(q.request_id, "req-001");
}

#[test]
fn redeem_answer_carries_the_proof() {
    let reply = RedeemResponse {
        success: true,
        witness_signature: Some(vec![1]),
        new_state_id: Some(vec![2]),
        commitment_hash: Some(vec![3]),
        state_hash: Some(vec![4]),
        receipt_commitment: Some(vec![5]),
        error_response: None,
        receiver_fact_chain: Some(vec![6]),
        fact_signature: Some(vec![7]),
    };
    let r = redeem_answer(&email(AntiePayload::default()), reply);
    assert!(r.success);
    assert_eq!(r.witness_signature, Some(vec![1]));
    assert_eq!(r.commitment_hash, Some(vec![3]));
    assert_eq!(r.fact_signature, Some(vec![7]));
    assert_eq!(r.rejection_code, None);
}

#[test]
fn ack_needs_all_of_its_parts() {
    let whole = || AntiePayload {
        txid: Some(vec![0xAA; 32]),
        validator_pk: Some(vec![0xBB; 32]),
        sender_sig: Some(vec![0xCC; 64]),
        client_pk: Some(vec![0xDD; 32]),
        ..Default::default()
    };
    let q = taken(ack_request(&email(whole())));
    assert_eq!(q.txid, [0xAA; 32]);
    assert_eq!(q.client_pk, vec![0xDD; 32]);
    let cases = vec![
        (AntiePayload { txid: None, ..whole() }, "Invalid payload: Missing txid"),
        (AntiePayload { txid: Some(vec![1]), ..whole() }, "Invalid payload: txid must be 32 bytes"),
        (AntiePayload { validator_pk: None, ..whole() }, "Invalid payload: Missing validator_pk"),
        (AntiePayload { sender_sig: None, ..whole() }, "Invalid payload: Missing sender_sig"),
        (AntiePayload { client_pk: None, ..whole() }, "Invalid payload: Missing client_pk"),
    ];
    for (p, said) in cases {
        assert_eq!(refusal(ack_request(&email(p))), said);
    }
    let failed = AckResponse { request_id: "r".into(), success: false, error_response: None };
    assert_eq!(ack_answer(&email(whole()), &failed).rejection_code.as_deref(), Some("ACK_FAILED"));
}

fn subject() -> AntiePayload {
    AntiePayload {
        sphincs_pk_hex: Some("aa".into()),
        dilithium_pk_hex: Some("bb".into()),
        ed25519_pk_hex: Some("cc".into()),
        ..Default::default()
    }
}

#[test]
fn signing_needs_the_keys() {
    let q = taken(vbc_sign_request(&email(subject())));
    assert_eq!(q.request_type, "vbc_sign_request");
    assert_eq!(q.ed25519_pk_hex, "cc");
    assert_eq!(
        refusal(vbc_sign_request(&email(AntiePayload::default()))),
        "Invalid payload: Missing sphincs_pk_hex"
    );
}

#[test]
fn commit_needs_three_issuers() {
    let whole = |n: usize| AntiePayload {
        issued_at: Some(1),
        expires_at: Some(2),
        chain_depth: Some(3),
        issuer_set_hex: vec!["ee".to_string(); n],
        ..subject()
    };
    let q = taken(vbc_sign_commit(&email(whole(3))));
    assert_eq!((q.issued_at, q.expires_at, q.chain_depth), (Some(1), Some(2), Some(3)));
    assert_eq!(
        refusal(vbc_sign_commit(&email(whole(2)))),
        "Invalid payload: issuer_set_hex must have 3 entries, got 2"
    );
    assert_eq!(refusal(vbc_sign_commit(&email(subject()))), "Invalid payload: Missing issued_at");
}

#[test]
fn signing_answers() {
    let m = email(subject());
    let failed = taken(vbc_answer(&m, Ok(VbcResponse { success: false, error: Some("e".into()) }), true));
    assert_eq!(failed.rejection_code.as_deref(), Some("VBC_SIGN_COMMIT_FAILED"));
    let failed = taken(vbc_answer(&m, Ok(VbcResponse { success: false, error: None }), false));
    assert_eq!(failed.rejection_code.as_deref(), Some("VBC_SIGN_FAILED"));
    assert!(refusal(vbc_answer(&m, Err("x".into()), false)).contains("CBOR decode VBC response: x"));
}

#[test]
fn healing_is_passed_downstream() {
    let proof = obj(vec![("p", JsonValue::PosInt(1))]);
    let p = AntiePayload {
        scar_recovery_proof: Some(obj(vec![("p", JsonValue::PosInt(1))])),
        target_wallet_id: Some("w@x/1".into()),
        ..Default::default()
    };
    let m = email(p);
    let (got, wallet) = taken(scar_heal_request(&m));
    assert_eq!(got, proof);
    let q = ledger_heal_request(got, wallet);
    assert_eq!(q.request_type, "scar_heal");
    assert_eq!(q.request_id.len(), 36);
    let targets = vec![DownstreamTarget { wallet_id: "d@x/2".into(), email: "d@x".into() }];
    let reply = ScarHealResponse { success: true, downstream_targets: targets, error: None };
    let (answer, mails) = scar_heal_answer(&m, "v@axiom", &proof, reply);
    assert!(answer.success);
    assert_eq!(mails.len(), 1);
    assert_eq!(mails[0].to, "d@x");
    assert_eq!(
        refusal(scar_heal_request(&email(AntiePayload::default()))),
        "Invalid payload: Missing scar_recovery_proof"
    );
}

#[test]
fn auth_hash_has_its_length() {
    let p = |n: usize| AntiePayload { public_key: Some(vec![1]), auth_hash: Some(vec![0; n]), ..Default::default() };
    assert_eq!(taken(set_auth_hash_request(&email(p(32)))), (vec![1], vec![0; 32]));
    assert_eq!(
        refusal(set_auth_hash_request(&email(p(31)))),
        "Invalid payload: auth_hash must be 32 bytes, got 31"
    );
    let failed = SetAuthHashResponse { success: false, error: Some("e".into()) };
    let r = set_auth_hash_answer(&email(p(32)), failed);
    assert_eq!(r.rejection_code.as_deref(), Some("SET_AUTH_HASH_FAILED"));
}

#[test]
fn audits_are_answered_by_mail() {
    let v = || obj(vec![("txid", text("t"))]);
    let m = email(AntiePayload {
        peer_audit_request: Some(v()),
        peer_audit_response: Some(v()),
        ..Default::default()
    });
    assert_eq!(taken(peer_audit_request(&m, None)), v());
    assert_eq!(taken(peer_audit_response(&m, None)), v());
    assert_eq!(
        refusal(peer_audit_request(&m, Some("bad".into()))),
        "Invalid payload: Invalid peer_audit_request: bad"
    );
    assert_eq!(
        refusal(peer_audit_response(&email(AntiePayload::default()), None)),
        "Invalid payload: Missing peer_audit_response"
    );
    let reply = PeerAuditResult {
        success: true,
        error: None,
        response: Some(v()),
        requester_email: Some("q@x".into()),
    };
    let (answer, mail) = peer_audit_answer(&m, "v@axiom", reply);
    assert!(answer.success);
    assert_eq!(mail.unwrap().to, "q@x");
    assert!(peer_audit_noted(&m).success);
}

fn request() -> WitnessRequest {
    WitnessRequest {
        request_id: "w-1".into(),
        requester_address: "s@x".into(),
        overlapped_signatures: 0,
        sender_wallet_id: "s@x/1".into(),
        receiver_wallet_id: "r@x/2".into(),
        receiver_address: None,
        produced_state_id: None,
        commitment_hash: None,
        cbor: vec![],
    }
}

fn witnessed() -> WitnessResponse {
    WitnessResponse {
        success: true,
        request_id: "w-1".into(),
        witness_signature: Some(vec![1]),
        cheque_for_receiver: Some(ValidatorCheque {
            txid: [0xAB; 32],
            cbor: json_to_cbor(&obj(vec![("amount", JsonValue::PosInt(5))])),
        }),
        scar_consent_for_receiver: Some(json_to_cbor(&obj(vec![("passcode", JsonValue::PosInt(9))]))),
        scar_consent_voucher: None,
        produced_state_id: Some(vec![2]),
        receipt: None,
        commitment_hash: None,
        state_hash: None,
        receipt_commitment: None,
        txid: vec![0xAB; 32],
        rejection: None,
        validator_hints: vec![],
        sender_fact_chain: None,
        outbound_peer_audit: None,
    }
}

#[test]
fn core_verdict_on_a_request() {
    let refused = ValidationOutput {
        accepted: false,
        new_state_id: None,
        new_wallet_seq: None,
        commitment_hash: None,
        rejection_reason: Some("bad".into()),
    };
    match after_core(request(), "m-1", Ok(refused)) {
        Ok(CoreStep::Passed(_)) | Err(_) => panic!("refused"),
        Ok(CoreStep::Refused(p)) => {
            assert_eq!(p.request_id, "m-1");
            assert_eq!(p.error.as_deref(), Some("bad"));
            assert_eq!(p.rejection_code.as_deref(), Some("CL2_VALIDATION_FAILED"));
        }
    }
    let fine = ValidationOutput {
        accepted: true,
        new_state_id: Some([3; 32]),
        new_wallet_seq: None,
        commitment_hash: Some([4; 32]),
        rejection_reason: None,
    };
    match after_core(request(), "m-1", Ok(fine)) {
        Ok(CoreStep::Passed(q)) => {
            assert_eq!((q.produced_state_id, q.commitment_hash), (Some(vec![3; 32]), Some(vec![4; 32])))
        }
        _ => panic!("accepted"),
    }
    match after_core(request(), "m-1", Err(AntieError::CoreError("x".into()))) {
        Ok(_) => panic!("the core did not accept"),
        Err(e) => assert_eq!(e.to_text(), "Core error: x"),
    }
}

#[test]
fn sender_sees_no_cheque() {
    let r = witness_answer(witnessed());
    assert!(r.success);
    assert!(r.cheque_for_receiver.is_none());
    assert_eq!(r.witness_signature, Some(vec![1]));
    assert_eq!(r.txid, Some(vec![0xAB; 32]));
    let mut refused = witnessed();
    refused.success = false;
    refused.rejection = Some(RejectionInfo { code: "C".into(), message: "m".into() });
    let r = witness_answer(refused);
    assert!(!r.success);
    assert_eq!(r.rejection_code.as_deref(), Some("C"));
}

#[test]
fn receiver_gets_the_cheque() {
    let d = deliveries("v@axiom", &None, "burn@axiom", &request(), &witnessed());
    let cheque = d.cheque.unwrap();
    assert_eq!(cheque.to, "r@x");
    assert!(cheque.skipped.is_none());
    assert_eq!(cheque.txid_hex, "ab".repeat(32));
    assert!(is_mailed(&cheque, false));
    let mail = String::from_utf8(cheque.mail).unwrap();
    assert!(mail.contains("Subject: AXIOM/cheque/"));
    let body = BASE64.decode(mail.split("\r\n\r\n").nth(1).unwrap().trim()).unwrap();
    let cheque = cbor_to_json(&body).unwrap();
    assert_eq!(cheque.get("cheque"), Some(&obj(vec![("amount", JsonValue::PosInt(5))])));
    assert_eq!(d.consent.unwrap().to, "r@x");
    assert!(d.audit.is_none());
}

#[test]
fn listed_receivers_are_left_to_a_sibling() {
    let list = SkipList::maybe_open(Some("/l"), Some("/skipped"), Some("r@x/2\n"));
    let d = deliveries("v@axiom", &list, "burn@axiom", &request(), &witnessed());
    let cheque = d.cheque.unwrap();
    assert!(cheque.skipped.is_some());
    assert!(!is_mailed(&cheque, true));
    assert!(is_mailed(&cheque, false));
}

#[test]
fn audits_go_out_with_a_witness() {
    let mut w = witnessed();
    w.outbound_peer_audit = Some(OutboundPeerAudit { target_email: "p@x".into(), request: obj(vec![]) });
    assert_eq!(deliveries("v@axiom", &None, "burn@axiom", &request(), &w).audit.unwrap().to, "p@x");
}

#[test]
fn receiver_address_comes_first() {
    assert_eq!(find_receiver(&request()).as_deref(), Some("r@x"));
    let named = WitnessRequest { receiver_address: Some("other@y/3".into()), ..request() };
    assert_eq!(find_receiver(&named).as_deref(), Some("other@y"));
}

#[test]
fn delivery_is_reported() {
    let (url, body) = delivery_update("http://127.0.0.1:7780", "abab", true);
    assert!(url.starts_with("http://127.0.0.1:7780"));
    assert!(body.contains("abab"));
}

#[test]
fn marks_become_a_kind() {
    let tx = obj(vec![
        ("amount", JsonValue::PosInt(1)),
        ("is_heal", JsonValue::Bool(true)),
        ("is_recall", JsonValue::Bool(false)),
    ]);
    let body = json_to_cbor(&obj(vec![("request_id", text("r")), ("transaction", tx)]));
    let read = deserialize_witness_request(&body).unwrap();
    assert_eq!(read.kind, Some(TxKind::Heal));
    let json = cbor_to_json(&read.cbor).unwrap();
    assert_eq!(json.get("request_id"), Some(&text("r")));
    assert_eq!(json.get("transaction"), Some(&obj(vec![("amount", JsonValue::PosInt(1))])));
}

#[test]
fn body_without_marks_stays() {
    let body = json_to_cbor(&obj(vec![("transaction", obj(vec![("amount", JsonValue::PosInt(1))]))]));
    let read = deserialize_witness_request(&body).unwrap();
    assert_eq!(read.kind, None);
    assert_eq!(read.cbor, body);
    assert!(deserialize_witness_request(&[0xFF]).is_err());
    assert_eq!(clean_body(&[1, 2], None, None).cbor, vec![1, 2]);
}
