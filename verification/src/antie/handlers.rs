//! What the ledger service is asked for each kind of request, and how its answer is passed
//! on.
use vstd::prelude::*;
use crate::antie::cbor;
use crate::antie::cbor_map;
use crate::antie::cbor_map::{write_text, MapWriter};
use crate::antie::email;
use crate::antie::email::{build_peer_audit_response_email, build_scar_heal_email, AntieEmail};
use crate::antie::error::{labelled, AntieError, ErrorView};
use crate::antie::lambda_client::{AckResponse, DownstreamTarget, ErrorInfo, GenesisResponse, LambdaScarHealRequest, PeerAuditResult, QueryResponse, RedeemResponse, ScarHealResponse, SetAuthHashResponse, ValidatorStatus, WalletState};
use crate::antie::payload;
use crate::antie::response::ResponsePayload;
use crate::antie::witness::{or_else, Delivery};
use crate::json;
use crate::json::{Json, JsonValue};
use crate::text;

verus! {

/// A copy of optional bytes.
fn copy_bytes(b: &Option<Vec<u8>>) -> (r: Option<Vec<u8>>)
    ensures
        payload::opt(r) == payload::opt(*b),
{
    match b {
        Some(v) => Some(vstd::slice::slice_to_vec(v.as_slice())),
        None => None,
    }
}

/// The code for a request that failed.
pub open spec fn code_unless(success: bool, code: Seq<char>) -> Option<Seq<char>> {
    if success {
        None
    } else {
        Some(code)
    }
}

/// A bare answer that carries the given code unless the request succeeded.
fn outcome(request_id: &str, success: bool, error: Option<String>, code: &str) -> (r: ResponsePayload)
    ensures
        r.says(success, request_id@, payload::opt(error), code_unless(success, code@)),
{
    ResponsePayload::bare(
        success,
        request_id,
        error,
        if success {
            None
        } else {
            Some(code)
        },
    )
}

/// The error for a body that is not the request it should be.
pub open spec fn decode_error(kind: Seq<char>, fault: Seq<char>, len: nat) -> ErrorView {
    ErrorView::InvalidPayload(
        kind + " CBOR decode failed: "@ + fault + " (body_len="@ + text::dec(len) + ")"@,
    )
}

/// The error for a body that is not the request it should be.
pub fn decode_failure(kind: &str, fault: &str, body_len: usize) -> (r: AntieError)
    ensures
        r@ == decode_error(kind@, fault@, body_len as nat),
{
    let mut m = String::from_str(kind);
    m.append(" CBOR decode failed: ");
    m.append(fault);
    m.append(" (body_len=");
    text::push_dec(&mut m, body_len as u64);
    m.append(")");
    AntieError::InvalidPayload(m)
}

// ---------------------------------------------------------------------------
// Queries
// ---------------------------------------------------------------------------

/// The wallet key that a query asks for: a list of bytes.
pub open spec fn wallet_pk(params: Option<Json>) -> Option<Seq<u8>> {
    match params {
        Some(Json::Object(o)) => match json::lookup(o, "wallet_pk"@) {
            Some(Json::Array(a)) => if payload::is_bytes(a) {
                Some(a.map_values(|v: Json| v->PosInt_0 as u8))
            } else {
                None
            },
            _ => None,
        },
        _ => None,
    }
}

/// The wallet key that a query asks for.
pub fn query_request(email: &AntieEmail) -> (r: Result<Vec<u8>, AntieError>)
    ensures
        match wallet_pk(email@.payload.query_params) {
            Some(k) => r matches Ok(got) && got@ == k,
            None => r matches Err(e) && e@ == ErrorView::InvalidPayload(
                "Query requires query_params.wallet_pk (byte array)"@,
            ),
        },
{
    if let Some(p) = &email.payload.query_params {
        if let Some(v) = p.get("wallet_pk") {
            if let JsonValue::Array(a) = v {
                proof {
                    json::lemma_array_view(*a);
                }
                if let Some(b) = payload::byte_list(a) {
                    return Ok(b);
                }
            }
        }
    }
    Err(AntieError::payload("Query requires query_params.wallet_pk (byte array)"))
}

/// Bytes as a JSON list.
pub open spec fn bytes_json(b: Seq<u8>) -> Json {
    Json::Array(b.map_values(|x: u8| Json::PosInt(x as u64)))
}

/// Bytes as a JSON list.
fn bytes_to_json(b: &Vec<u8>) -> (r: JsonValue)
    ensures
        r@ == bytes_json(b@),
{
    let mut items: Vec<JsonValue> = Vec::new();
    let mut i: usize = 0;
    while i < b.len()
        invariant
            i <= b@.len(),
            items@.len() == i,
            forall|k: int| 0 <= k < i ==> (#[trigger] items@[k])@ == Json::PosInt(b@[k] as u64),
        decreases b@.len() - i,
    {
        items.push(JsonValue::PosInt(b[i] as u64));
        i = i + 1;
    }
    proof {
        json::lemma_array_view(items);
        assert(json::items_view(items@) == b@.map_values(|x: u8| Json::PosInt(x as u64)));
    }
    JsonValue::Array(items)
}

/// What a query tells of a wallet.
pub open spec fn state_json(s: WalletState) -> Json {
    Json::Object(
        json::object_of(
            seq![
                ("balance"@, Json::PosInt(s.balance)),
                ("wallet_seq"@, Json::PosInt(s.wallet_seq)),
                ("public_key"@, bytes_json(s.public_key@)),
                ("state_id"@, bytes_json(s.state_id@)),
            ],
        ),
    )
}

fn state_to_json(s: &WalletState) -> (r: JsonValue)
    ensures
        r@ == state_json(*s),
{
    let mut entries: Vec<(String, JsonValue)> = Vec::new();
    entries.push((String::from_str("balance"), JsonValue::PosInt(s.balance)));
    entries.push((String::from_str("wallet_seq"), JsonValue::PosInt(s.wallet_seq)));
    entries.push((String::from_str("public_key"), bytes_to_json(&s.public_key)));
    entries.push((String::from_str("state_id"), bytes_to_json(&s.state_id)));
    assert(json::entries_view(entries@) == seq![
        ("balance"@, Json::PosInt(s.balance)),
        ("wallet_seq"@, Json::PosInt(s.wallet_seq)),
        ("public_key"@, bytes_json(s.public_key@)),
        ("state_id"@, bytes_json(s.state_id@)),
    ]);
    JsonValue::object(entries)
}

/// What an optional JSON value stands for.
pub open spec fn opt_json(o: Option<JsonValue>) -> Option<Json> {
    match o {
        Some(v) => Some(v@),
        None => None,
    }
}

/// The answer to a query.
pub fn query_answer(email: &AntieEmail, found: &QueryResponse) -> (r: ResponsePayload)
    ensures
        found.found ==> {
            &&& (ResponsePayload { query_data: None, ..r }).says(true, email.request_id@, None, None)
            &&& opt_json(r.query_data) == (match found.wallet_state {
                Some(s) => Some(state_json(s)),
                None => None,
            })
        },
        !found.found ==> r.says(
            false,
            email.request_id@,
            Some("Wallet not found"@),
            Some("NOT_FOUND"@),
        ),
{
    if !found.found {
        return ResponsePayload::bare(
            false,
            email.request_id.as_str(),
            Some(String::from_str("Wallet not found")),
            Some("NOT_FOUND"),
        );
    }
    let mut r = ResponsePayload::bare(true, email.request_id.as_str(), None, None);
    r.query_data = match &found.wallet_state {
        Some(s) => Some(state_to_json(s)),
        None => None,
    };
    r
}

// ---------------------------------------------------------------------------
// Validator status
// ---------------------------------------------------------------------------

/// What a validator tells of itself.
pub open spec fn status_json(s: ValidatorStatus) -> Json {
    Json::Object(
        json::object_of(
            seq![
                ("name"@, s.validator_name@),
                ("validator_id"@, s.validator_id@),
                ("proof_cap"@, s.proof_cap@),
                ("carriers"@, s.carriers@),
                ("core_version"@, s.core_version@),
                ("uptime_secs"@, s.uptime_secs@),
                ("witness_count"@, s.witness_count@),
                ("redeem_count"@, s.redeem_count@),
                ("zkp_qualified"@, s.zkp_qualified@),
            ],
        ),
    )
}

/// The answer to a status request: what the validator tells of itself, and the validators it
/// knows.
pub fn status_answer(email: &AntieEmail, status: ValidatorStatus) -> (r: ResponsePayload)
    ensures
        r.success,
        r.request_id@ == email.request_id@,
        r.error is None,
        r.rejection_code is None,
        r.proves_nothing(),
        r.validator_hints == status.known_validators,
        opt_json(r.query_data) == Some(status_json(status)),
{
    let ghost whole = status;
    let mut entries: Vec<(String, JsonValue)> = Vec::new();
    entries.push((String::from_str("name"), status.validator_name));
    entries.push((String::from_str("validator_id"), status.validator_id));
    entries.push((String::from_str("proof_cap"), status.proof_cap));
    entries.push((String::from_str("carriers"), status.carriers));
    entries.push((String::from_str("core_version"), status.core_version));
    entries.push((String::from_str("uptime_secs"), status.uptime_secs));
    entries.push((String::from_str("witness_count"), status.witness_count));
    entries.push((String::from_str("redeem_count"), status.redeem_count));
    entries.push((String::from_str("zkp_qualified"), status.zkp_qualified));
    assert(json::entries_view(entries@) == seq![
        ("name"@, whole.validator_name@),
        ("validator_id"@, whole.validator_id@),
        ("proof_cap"@, whole.proof_cap@),
        ("carriers"@, whole.carriers@),
        ("core_version"@, whole.core_version@),
        ("uptime_secs"@, whole.uptime_secs@),
        ("witness_count"@, whole.witness_count@),
        ("redeem_count"@, whole.redeem_count@),
        ("zkp_qualified"@, whole.zkp_qualified@),
    ]);
    let mut r = ResponsePayload::bare(true, email.request_id.as_str(), None, None);
    r.query_data = Some(JsonValue::object(entries));
    r.validator_hints = status.known_validators;
    r
}

// ---------------------------------------------------------------------------
// Genesis
// ---------------------------------------------------------------------------

/// A request for a new wallet.
pub struct GenesisRequest {
    pub request_id: String,
    pub public_key: Vec<u8>,
    pub balance: u64,
    pub auth_hash: Option<Vec<u8>>,
}

/// What is wrong with a request for a new wallet, if anything. `members_fault` is what is
/// wrong with the members of a group wallet.
pub open spec fn genesis_error(p: payload::PayloadView, members_fault: Option<Seq<char>>) -> Option<
    ErrorView,
> {
    if p.public_key is None {
        Some(ErrorView::InvalidPayload("Missing public_key"@))
    } else if p.balance is None {
        Some(ErrorView::InvalidPayload("Missing balance"@))
    } else {
        match members_fault {
            Some(e) => Some(ErrorView::InvalidPayload("Invalid group_members: "@ + e)),
            None => None,
        }
    }
}

/// The request for a new wallet.
pub fn genesis_request(email: &AntieEmail, members_fault: Option<String>) -> (r: Result<
    GenesisRequest,
    AntieError,
>)
    ensures
        match genesis_error(email@.payload, payload::opt(members_fault)) {
            Some(e) => r matches Err(got) && got@ == e,
            None => r matches Ok(q) && q.request_id@ == email.request_id@ && Some(q.public_key@)
                == email@.payload.public_key && Some(q.balance) == email@.payload.balance
                && payload::opt(q.auth_hash) == email@.payload.auth_hash,
        },
{
    let public_key = match copy_bytes(&email.payload.public_key) {
        Some(k) => k,
        None => {
            return Err(AntieError::payload("Missing public_key"));
        },
    };
    let balance: u64 = match email.payload.balance {
        Some(b) => b,
        None => {
            return Err(AntieError::payload("Missing balance"));
        },
    };
    match members_fault {
        Some(e) => {
            return Err(AntieError::InvalidPayload(labelled("Invalid group_members: ", e.as_str())));
        },
        None => {},
    }
    Ok(
        GenesisRequest {
            request_id: email.request_id.clone(),
            public_key,
            balance,
            auth_hash: copy_bytes(&email.payload.auth_hash),
        },
    )
}

/// The answer to a request for a new wallet: its first state.
pub fn genesis_answer(email: &AntieEmail, reply: GenesisResponse) -> (r: ResponsePayload)
    ensures
        (ResponsePayload { state_id: None, ..r }).says(
            reply.success,
            email.request_id@,
            payload::opt(reply.error),
            code_unless(reply.success, "GENESIS_FAILED"@),
        ),
        r.state_id == reply.state_id,
{
    let mut r = outcome(email.request_id.as_str(), reply.success, reply.error, "GENESIS_FAILED");
    r.state_id = reply.state_id;
    r
}

// ---------------------------------------------------------------------------
// Redeeming
// ---------------------------------------------------------------------------

/// A request to redeem cheques: its id, and the whole of it in CBOR.
pub struct RedeemRequest {
    pub request_id: String,
    pub cbor: Vec<u8>,
}

/// The request to redeem cheques, given what its body was decoded to. Where it has no id of
/// its own it has that of the mail.
pub fn redeem_request(email: &AntieEmail, decoded: Result<RedeemRequest, String>) -> (r: Result<
    RedeemRequest,
    AntieError,
>)
    ensures
        match decoded {
            Ok(q) => r matches Ok(got) && got.cbor == q.cbor && got.request_id@ == or_else(
                q.request_id@,
                email.request_id@,
            ),
            Err(e) => r matches Err(got) && got@ == decode_error(
                "RedeemRequestEnvelope"@,
                e@,
                email.payload.raw_ump_body@.len(),
            ),
        },
{
    match decoded {
        Ok(q) => {
            let mut q = q;
            if q.request_id.as_str().is_empty() {
                q.request_id = email.request_id.clone();
            }
            Ok(q)
        },
        Err(e) => Err(
            decode_failure("RedeemRequestEnvelope", e.as_str(), email.payload.raw_ump_body.len()),
        ),
    }
}

/// What a reported error is summed up as.
pub open spec fn summary_of(e: Option<ErrorInfo>) -> Option<Seq<char>> {
    match e {
        Some(i) => Some(i.summary()),
        None => None,
    }
}

fn sum_up(e: &Option<ErrorInfo>) -> (r: Option<String>)
    ensures
        payload::opt(r) == summary_of(*e),
{
    match e {
        Some(i) => Some(i.summary_text()),
        None => None,
    }
}

/// The answer to a request to redeem cheques. An error of the ledger service is passed on
/// whole, and summed up.
pub fn redeem_answer(email: &AntieEmail, reply: RedeemResponse) -> (r: ResponsePayload)
    ensures
        r.success == reply.success,
        r.request_id@ == email.request_id@,
        r.witness_signature == reply.witness_signature,
        r.cheque_for_receiver is None,
        r.scar_consent_voucher is None,
        r.produced_state_id == reply.new_state_id,
        r.receipt is None,
        r.commitment_hash == reply.commitment_hash,
        r.state_hash == reply.state_hash,
        r.receipt_commitment == reply.receipt_commitment,
        r.txid is None,
        r.state_id is None,
        payload::opt(r.error) == summary_of(reply.error_response),
        payload::opt(r.rejection_code) == code_unless(reply.success, "REDEEM_FAILED"@),
        r.error_response == reply.error_response,
        r.validator_hints@.len() == 0,
        r.sender_fact_chain is None,
        r.receiver_fact_chain == reply.receiver_fact_chain,
        r.fact_signature == reply.fact_signature,
        r.query_data is None,
{
    let error = sum_up(&reply.error_response);
    let mut r = outcome(email.request_id.as_str(), reply.success, error, "REDEEM_FAILED");
    r.witness_signature = reply.witness_signature;
    r.produced_state_id = reply.new_state_id;
    r.commitment_hash = reply.commitment_hash;
    r.state_hash = reply.state_hash;
    r.receipt_commitment = reply.receipt_commitment;
    r.error_response = reply.error_response;
    r.receiver_fact_chain = reply.receiver_fact_chain;
    r.fact_signature = reply.fact_signature;
    r
}

// ---------------------------------------------------------------------------
// Acknowledgements
// ---------------------------------------------------------------------------

/// An acknowledgement of a witnessed transaction.
pub struct AckRequest {
    pub request_id: String,
    pub txid: [u8; 32],
    pub validator_pk: Vec<u8>,
    pub sender_sig: Vec<u8>,
    pub client_pk: Vec<u8>,
}

/// What is wrong with an acknowledgement, if anything.
pub open spec fn ack_error(p: payload::PayloadView) -> Option<ErrorView> {
    match p.txid {
        None => Some(ErrorView::InvalidPayload("Missing txid"@)),
        Some(t) => if t.len() != 32 {
            Some(ErrorView::InvalidPayload("txid must be 32 bytes"@))
        } else if p.validator_pk is None {
            Some(ErrorView::InvalidPayload("Missing validator_pk"@))
        } else if p.sender_sig is None {
            Some(ErrorView::InvalidPayload("Missing sender_sig"@))
        } else if p.client_pk is None {
            Some(ErrorView::InvalidPayload("Missing client_pk"@))
        } else {
            None
        },
    }
}

/// The acknowledgement in a mail.
pub fn ack_request(email: &AntieEmail) -> (r: Result<AckRequest, AntieError>)
    ensures
        match ack_error(email@.payload) {
            Some(e) => r matches Err(got) && got@ == e,
            None => r matches Ok(q) && q.request_id@ == email.request_id@ && Some(q.txid@)
                == email@.payload.txid && Some(q.validator_pk@) == email@.payload.validator_pk
                && Some(q.sender_sig@) == email@.payload.sender_sig && Some(q.client_pk@)
                == email@.payload.client_pk,
        },
{
    let txid = match &email.payload.txid {
        Some(t) => {
            if t.len() != 32 {
                return Err(AntieError::payload("txid must be 32 bytes"));
            }
            email::to_id(t)
        },
        None => {
            return Err(AntieError::payload("Missing txid"));
        },
    };
    let validator_pk = match copy_bytes(&email.payload.validator_pk) {
        Some(k) => k,
        None => {
            return Err(AntieError::payload("Missing validator_pk"));
        },
    };
    let sender_sig = match copy_bytes(&email.payload.sender_sig) {
        Some(k) => k,
        None => {
            return Err(AntieError::payload("Missing sender_sig"));
        },
    };
    let client_pk = match copy_bytes(&email.payload.client_pk) {
        Some(k) => k,
        None => {
            return Err(AntieError::payload("Missing client_pk"));
        },
    };
    Ok(AckRequest { request_id: email.request_id.clone(), txid, validator_pk, sender_sig, client_pk })
}

/// The answer to an acknowledgement.
pub fn ack_answer(email: &AntieEmail, reply: &AckResponse) -> (r: ResponsePayload)
    ensures
        r.says(
            reply.success,
            email.request_id@,
            summary_of(reply.error_response),
            code_unless(reply.success, "ACK_FAILED"@),
        ),
{
    outcome(email.request_id.as_str(), reply.success, sum_up(&reply.error_response), "ACK_FAILED")
}

// ---------------------------------------------------------------------------
// Certificates
// ---------------------------------------------------------------------------

/// A request to sign a validator's certificate.
pub struct VbcSignRequest {
    pub request_type: String,
    pub request_id: String,
    pub sphincs_pk_hex: String,
    pub dilithium_pk_hex: String,
    pub ed25519_pk_hex: String,
    pub pgp_fingerprint_hex: String,
    pub proof_cap: String,
    pub node_name: String,
    pub issued_at: Option<u64>,
    pub expires_at: Option<u64>,
    pub chain_depth: Option<u32>,
    pub issuer_set_hex: Vec<String>,
}

/// The answer to a request to sign a certificate.
pub struct VbcResponse {
    pub success: bool,
    pub error: Option<String>,
}

/// The fields that a signing request always has.
pub open spec fn sign_fields(q: VbcSignRequest) -> Seq<(Seq<char>, Json)> {
    seq![
        ("type"@, Json::Str(q.request_type@)),
        ("request_id"@, Json::Str(q.request_id@)),
        ("sphincs_pk_hex"@, Json::Str(q.sphincs_pk_hex@)),
        ("dilithium_pk_hex"@, Json::Str(q.dilithium_pk_hex@)),
        ("ed25519_pk_hex"@, Json::Str(q.ed25519_pk_hex@)),
        ("pgp_fingerprint_hex"@, Json::Str(q.pgp_fingerprint_hex@)),
        ("proof_cap"@, Json::Str(q.proof_cap@)),
        ("node_name"@, Json::Str(q.node_name@)),
    ]
}

/// A field that is left out where it has no value.
pub open spec fn number_entry(name: Seq<char>, value: Option<u64>) -> Seq<(Seq<char>, Json)> {
    match value {
        Some(n) => seq![(name, Json::PosInt(n))],
        None => Seq::empty(),
    }
}

/// An optional number, in 64 bits.
pub open spec fn wide(value: Option<u32>) -> Option<u64> {
    match value {
        Some(n) => Some(n as u64),
        None => None,
    }
}

/// Texts as a JSON list.
pub open spec fn texts_json(v: Seq<Seq<char>>) -> Json {
    Json::Array(v.map_values(|s: Seq<char>| Json::Str(s)))
}

/// The fields of a signing request. The term, the depth and the issuers are left out where
/// there are none.
pub open spec fn sign_entries(q: VbcSignRequest) -> Seq<(Seq<char>, Json)> {
    sign_fields(q) + number_entry("issued_at"@, q.issued_at) + number_entry("expires_at"@, q.expires_at)
        + number_entry("chain_depth"@, wide(q.chain_depth)) + if q.issuer_set_hex@.len() == 0 {
        Seq::empty()
    } else {
        seq![("issuer_set_hex"@, texts_json(text::views(q.issuer_set_hex@)))]
    }
}

/// The CBOR forms of texts, one after the other.
pub open spec fn text_items(v: Seq<Seq<char>>) -> Seq<u8>
    decreases v.len(),
{
    if v.len() == 0 {
        Seq::empty()
    } else {
        text_items(v.drop_last()) + cbor::text_item(v.last())
    }
}

/// A number in CBOR, if there is one.
pub open spec fn number_item(value: Option<u64>) -> Option<Seq<u8>> {
    match value {
        Some(n) => Some(cbor::head(0, n as nat)),
        None => None,
    }
}

/// A list of texts in CBOR, unless it is empty.
pub open spec fn texts_item(v: Seq<Seq<char>>) -> Option<Seq<u8>> {
    if v.len() == 0 {
        None
    } else {
        Some(cbor::head(4, v.len()) + text_items(v))
    }
}

/// The fields of a signing request in CBOR, in this order.
pub open spec fn sign_request_fields(q: VbcSignRequest) -> Seq<(Seq<char>, Seq<u8>)> {
    seq![
        ("type"@, cbor::text_item(q.request_type@)),
        ("request_id"@, cbor::text_item(q.request_id@)),
        ("sphincs_pk_hex"@, cbor::text_item(q.sphincs_pk_hex@)),
        ("dilithium_pk_hex"@, cbor::text_item(q.dilithium_pk_hex@)),
        ("ed25519_pk_hex"@, cbor::text_item(q.ed25519_pk_hex@)),
        ("pgp_fingerprint_hex"@, cbor::text_item(q.pgp_fingerprint_hex@)),
        ("proof_cap"@, cbor::text_item(q.proof_cap@)),
        ("node_name"@, cbor::text_item(q.node_name@)),
    ] + cbor_map::field("issued_at"@, number_item(q.issued_at)) + cbor_map::field(
        "expires_at"@,
        number_item(q.expires_at),
    ) + cbor_map::field("chain_depth"@, number_item(wide(q.chain_depth))) + cbor_map::field(
        "issuer_set_hex"@,
        texts_item(text::views(q.issuer_set_hex@)),
    )
}

fn write_number(value: Option<u64>) -> (r: Option<Vec<u8>>)
    ensures
        payload::opt(r) == number_item(value),
{
    match value {
        Some(n) => {
            let mut out: Vec<u8> = Vec::new();
            cbor::encode_head(0, n, &mut out);
            assert(out@ == cbor::head(0, n as nat));
            Some(out)
        },
        None => None,
    }
}

fn write_texts(v: &Vec<String>) -> (r: Option<Vec<u8>>)
    ensures
        payload::opt(r) == texts_item(text::views(v@)),
{
    if v.len() == 0 {
        return None;
    }
    let ghost all = text::views(v@);
    let mut out: Vec<u8> = Vec::new();
    cbor::encode_head(4, v.len() as u64, &mut out);
    let ghost first = out@;
    let mut i: usize = 0;
    assert(first + text_items(all.take(0)) == first);
    while i < v.len()
        invariant
            i <= v@.len(),
            all == text::views(v@),
            out@ == first + text_items(all.take(i as int)),
        decreases v@.len() - i,
    {
        proof {
            assert(all.take(i + 1).drop_last() == all.take(i as int));
        }
        cbor::encode_text(v[i].as_str(), &mut out);
        assert(out@ == first + text_items(all.take(i + 1)));
        i = i + 1;
    }
    assert(all.take(all.len() as int) == all);
    assert(out@ == cbor::head(4, all.len()) + text_items(all));
    Some(out)
}

fn push_text(entries: &mut Vec<(String, JsonValue)>, name: &str, value: &String)
    ensures
        json::entries_view(final(entries)@) == json::entries_view(old(entries)@).push(
            (name@, Json::Str(value@)),
        ),
{
    entries.push((String::from_str(name), JsonValue::Str(value.clone())));
    assert(json::entries_view(entries@) == json::entries_view(old(entries)@).push(
        (name@, Json::Str(value@)),
    ));
}

fn push_number(entries: &mut Vec<(String, JsonValue)>, name: &str, value: Option<u64>)
    ensures
        json::entries_view(final(entries)@) == json::entries_view(old(entries)@) + number_entry(
            name@,
            value,
        ),
{
    match value {
        Some(n) => {
            entries.push((String::from_str(name), JsonValue::PosInt(n)));
        },
        None => {},
    }
    assert(json::entries_view(entries@) == json::entries_view(old(entries)@) + number_entry(name@, value));
}

fn texts_to_json(v: &Vec<String>) -> (r: JsonValue)
    ensures
        r@ == texts_json(text::views(v@)),
{
    let mut items: Vec<JsonValue> = Vec::new();
    let mut i: usize = 0;
    while i < v.len()
        invariant
            i <= v@.len(),
            items@.len() == i,
            forall|k: int| 0 <= k < i ==> (#[trigger] items@[k])@ == Json::Str(v@[k]@),
        decreases v@.len() - i,
    {
        items.push(JsonValue::Str(v[i].clone()));
        i = i + 1;
    }
    proof {
        json::lemma_array_view(items);
        assert(json::items_view(items@) == text::views(v@).map_values(|s: Seq<char>| Json::Str(s)));
    }
    JsonValue::Array(items)
}

impl VbcSignRequest {
    /// The request as JSON.
    pub fn to_json(&self) -> (r: JsonValue)
        ensures
            r@ == Json::Object(json::object_of(sign_entries(*self))),
    {
        let mut e: Vec<(String, JsonValue)> = Vec::new();
        push_text(&mut e, "type", &self.request_type);
        push_text(&mut e, "request_id", &self.request_id);
        push_text(&mut e, "sphincs_pk_hex", &self.sphincs_pk_hex);
        push_text(&mut e, "dilithium_pk_hex", &self.dilithium_pk_hex);
        push_text(&mut e, "ed25519_pk_hex", &self.ed25519_pk_hex);
        push_text(&mut e, "pgp_fingerprint_hex", &self.pgp_fingerprint_hex);
        push_text(&mut e, "proof_cap", &self.proof_cap);
        push_text(&mut e, "node_name", &self.node_name);
        assert(json::entries_view(e@) == sign_fields(*self));
        push_number(&mut e, "issued_at", self.issued_at);
        push_number(&mut e, "expires_at", self.expires_at);
        let depth: Option<u64> = match self.chain_depth {
            Some(d) => Some(d as u64),
            None => None,
        };
        push_number(&mut e, "chain_depth", depth);
        let ghost before = json::entries_view(e@);
        if self.issuer_set_hex.len() > 0 {
            e.push((String::from_str("issuer_set_hex"), texts_to_json(&self.issuer_set_hex)));
            assert(json::entries_view(e@) == before.push(
                ("issuer_set_hex"@, texts_json(text::views(self.issuer_set_hex@))),
            ));
        }
        assert(json::entries_view(e@) == sign_entries(*self));
        JsonValue::object(e)
    }

    /// The request as the ledger service reads it.
    pub fn to_cbor(&self) -> (r: Vec<u8>)
        ensures
            r@ == email::cbor_map(sign_request_fields(*self)),
    {
        let mut w = MapWriter::new();
        w.put("type", write_text(self.request_type.as_str()));
        w.put("request_id", write_text(self.request_id.as_str()));
        w.put("sphincs_pk_hex", write_text(self.sphincs_pk_hex.as_str()));
        w.put("dilithium_pk_hex", write_text(self.dilithium_pk_hex.as_str()));
        w.put("ed25519_pk_hex", write_text(self.ed25519_pk_hex.as_str()));
        w.put("pgp_fingerprint_hex", write_text(self.pgp_fingerprint_hex.as_str()));
        w.put("proof_cap", write_text(self.proof_cap.as_str()));
        w.put("node_name", write_text(self.node_name.as_str()));
        w.push("issued_at", write_number(self.issued_at));
        w.push("expires_at", write_number(self.expires_at));
        let depth: Option<u64> = match self.chain_depth {
            Some(d) => Some(d as u64),
            None => None,
        };
        w.push("chain_depth", write_number(depth));
        w.push("issuer_set_hex", write_texts(&self.issuer_set_hex));
        assert(w.fields@ =~= sign_request_fields(*self));
        w.finish()
    }
}

/// Whether a certificate was signed, as a value says: not, if there is none.
pub open spec fn vbc_success(v: Option<Json>) -> Option<bool> {
    match v {
        None => Some(false),
        Some(Json::Bool(b)) => Some(b),
        Some(_) => None,
    }
}

/// The error that a value gives: none, if there is no value or it is null.
pub open spec fn vbc_error(v: Option<Json>) -> Option<Option<Seq<char>>> {
    match v {
        None => Some(None),
        Some(Json::Null) => Some(None),
        Some(Json::Str(s)) => Some(Some(s)),
        Some(_) => None,
    }
}

/// The item of a list, if it has that many.
pub open spec fn item(a: Seq<Json>, i: int) -> Option<Json> {
    if 0 <= i < a.len() {
        Some(a[i])
    } else {
        None
    }
}

/// What an answer to a signing request says: whether it succeeded, and an error. The two are
/// named, or stand in this order in a list. `None` if one of them is of the wrong kind, or if
/// there is more in the list.
pub open spec fn vbc_reply(j: Json) -> Option<(bool, Option<Seq<char>>)> {
    let (success, error) = match j {
        Json::Object(o) => (
            vbc_success(json::lookup(o, "success"@)),
            vbc_error(json::lookup(o, "error"@)),
        ),
        Json::Array(a) => if a.len() <= 2 {
            (vbc_success(item(a, 0)), vbc_error(item(a, 1)))
        } else {
            (None, None)
        },
        _ => (None, None),
    };
    match (success, error) {
        (Some(a), Some(b)) => Some((a, b)),
        _ => None,
    }
}

/// What an optional JSON value stands for.
pub open spec fn opt_ref(o: Option<&JsonValue>) -> Option<Json> {
    match o {
        Some(v) => Some(v@),
        None => None,
    }
}

fn read_vbc(success: Option<&JsonValue>, error: Option<&JsonValue>) -> (r: Option<VbcResponse>)
    ensures
        match (vbc_success(opt_ref(success)), vbc_error(opt_ref(error))) {
            (Some(s), Some(e)) => r matches Some(got) && got.success == s && payload::opt(got.error) == e,
            _ => r is None,
        },
{
    let success = match success {
        None => false,
        Some(JsonValue::Bool(b)) => *b,
        Some(_) => {
            return None;
        },
    };
    let error = match error {
        None => None,
        Some(JsonValue::Null) => None,
        Some(JsonValue::Str(s)) => Some(s.clone()),
        Some(_) => {
            return None;
        },
    };
    Some(VbcResponse { success, error })
}

impl VbcResponse {
    /// Reads an answer to a signing request.
    pub fn from_json(j: &JsonValue) -> (r: Option<VbcResponse>)
        ensures
            match vbc_reply(j@) {
                Some(v) => r matches Some(got) && got.success == v.0 && payload::opt(got.error) == v.1,
                None => r is None,
            },
    {
        match j {
            JsonValue::Object(o) => {
                proof {
                    json::lemma_object_view(*o);
                }
                read_vbc(j.get("success"), j.get("error"))
            },
            JsonValue::Array(a) => {
                proof {
                    json::lemma_array_view(*a);
                }
                if a.len() > 2 {
                    return None;
                }
                let first = if a.len() > 0 {
                    Some(&a[0])
                } else {
                    None
                };
                let second = if a.len() > 1 {
                    Some(&a[1])
                } else {
                    None
                };
                read_vbc(first, second)
            },
            _ => None,
        }
    }
}

/// What is missing of the subject of a certificate, if anything.
pub open spec fn subject_error(p: payload::PayloadView) -> Option<ErrorView> {
    if p.sphincs_pk_hex is None {
        Some(ErrorView::InvalidPayload("Missing sphincs_pk_hex"@))
    } else if p.dilithium_pk_hex is None {
        Some(ErrorView::InvalidPayload("Missing dilithium_pk_hex"@))
    } else if p.ed25519_pk_hex is None {
        Some(ErrorView::InvalidPayload("Missing ed25519_pk_hex"@))
    } else {
        None
    }
}

/// Whether a signing request names the subject that a mail names.
pub open spec fn is_sign_request(q: VbcSignRequest, kind: Seq<char>, m: email::EmailView) -> bool {
    &&& q.request_type@ == kind
    &&& q.request_id@ == m.request_id
    &&& Some(q.sphincs_pk_hex@) == m.payload.sphincs_pk_hex
    &&& Some(q.dilithium_pk_hex@) == m.payload.dilithium_pk_hex
    &&& Some(q.ed25519_pk_hex@) == m.payload.ed25519_pk_hex
    &&& q.pgp_fingerprint_hex@ == email::or_empty(m.payload.pgp_fingerprint_hex)
    &&& q.proof_cap@ == email::or_empty(m.payload.proof_cap)
    &&& q.node_name@ == email::or_empty(m.payload.node_name_field)
}

fn text_or_empty(o: &Option<String>) -> (r: String)
    ensures
        r@ == email::or_empty(payload::opt(*o)),
{
    match o {
        Some(s) => s.clone(),
        None => String::new(),
    }
}

/// The request to look at a validator's keys before signing.
pub fn vbc_sign_request(email: &AntieEmail) -> (r: Result<VbcSignRequest, AntieError>)
    ensures
        match subject_error(email@.payload) {
            Some(e) => r matches Err(got) && got@ == e,
            None => r matches Ok(q) && is_sign_request(q, "vbc_sign_request"@, email@) && q.issued_at is None
                && q.expires_at is None && q.chain_depth is None && q.issuer_set_hex@.len() == 0,
        },
{
    let sphincs_pk_hex = match &email.payload.sphincs_pk_hex {
        Some(k) => k.clone(),
        None => {
            return Err(AntieError::payload("Missing sphincs_pk_hex"));
        },
    };
    let dilithium_pk_hex = match &email.payload.dilithium_pk_hex {
        Some(k) => k.clone(),
        None => {
            return Err(AntieError::payload("Missing dilithium_pk_hex"));
        },
    };
    let ed25519_pk_hex = match &email.payload.ed25519_pk_hex {
        Some(k) => k.clone(),
        None => {
            return Err(AntieError::payload("Missing ed25519_pk_hex"));
        },
    };
    Ok(
        VbcSignRequest {
            request_type: String::from_str("vbc_sign_request"),
            request_id: email.request_id.clone(),
            sphincs_pk_hex,
            dilithium_pk_hex,
            ed25519_pk_hex,
            pgp_fingerprint_hex: text_or_empty(&email.payload.pgp_fingerprint_hex),
            proof_cap: text_or_empty(&email.payload.proof_cap),
            node_name: text_or_empty(&email.payload.node_name_field),
            issued_at: None,
            expires_at: None,
            chain_depth: None,
            issuer_set_hex: Vec::new(),
        },
    )
}

/// What is wrong with a request to sign, if anything.
pub open spec fn commit_error(p: payload::PayloadView) -> Option<ErrorView> {
    if subject_error(p) is Some {
        subject_error(p)
    } else if p.issued_at is None {
        Some(ErrorView::InvalidPayload("Missing issued_at"@))
    } else if p.expires_at is None {
        Some(ErrorView::InvalidPayload("Missing expires_at"@))
    } else if p.chain_depth is None {
        Some(ErrorView::InvalidPayload("Missing chain_depth"@))
    } else if p.issuer_set_hex.len() != 3 {
        Some(
            ErrorView::InvalidPayload(
                "issuer_set_hex must have 3 entries, got "@ + text::dec(p.issuer_set_hex.len()),
            ),
        )
    } else {
        None
    }
}

/// The request to sign a validator's certificate.
pub fn vbc_sign_commit(email: &AntieEmail) -> (r: Result<VbcSignRequest, AntieError>)
    ensures
        match commit_error(email@.payload) {
            Some(e) => r matches Err(got) && got@ == e,
            None => r matches Ok(q) && is_sign_request(q, "vbc_sign_commit"@, email@) && q.issued_at
                == email@.payload.issued_at && q.expires_at == email@.payload.expires_at && (
            q.chain_depth matches Some(d) && Some(d as u8) == email@.payload.chain_depth && d < 256)
                && text::views(q.issuer_set_hex@) == email@.payload.issuer_set_hex,
        },
{
    let mut q = match vbc_sign_request(email) {
        Ok(q) => q,
        Err(e) => {
            return Err(e);
        },
    };
    q.request_type = String::from_str("vbc_sign_commit");
    if email.payload.issued_at.is_none() {
        return Err(AntieError::payload("Missing issued_at"));
    }
    if email.payload.expires_at.is_none() {
        return Err(AntieError::payload("Missing expires_at"));
    }
    let depth: u8 = match email.payload.chain_depth {
        Some(d) => d,
        None => {
            return Err(AntieError::payload("Missing chain_depth"));
        },
    };
    let len: usize = email.payload.issuer_set_hex.len();
    if len != 3 {
        let mut m = String::from_str("issuer_set_hex must have 3 entries, got ");
        text::push_dec(&mut m, len as u64);
        return Err(AntieError::InvalidPayload(m));
    }
    q.issued_at = email.payload.issued_at;
    q.expires_at = email.payload.expires_at;
    q.chain_depth = Some(depth as u32);
    let mut issuers: Vec<String> = Vec::new();
    issuers.push(email.payload.issuer_set_hex[0].clone());
    issuers.push(email.payload.issuer_set_hex[1].clone());
    issuers.push(email.payload.issuer_set_hex[2].clone());
    assert(text::views(issuers@) == text::views(email.payload.issuer_set_hex@));
    q.issuer_set_hex = issuers;
    Ok(q)
}

/// The answer to a signing request, given the ledger service's or what was wrong with it.
pub fn vbc_answer(
    email: &AntieEmail,
    reply: Result<VbcResponse, String>,
    commit: bool,
) -> (r: Result<ResponsePayload, AntieError>)
    ensures
        match reply {
            Ok(v) => r matches Ok(p) && p.says(
                v.success,
                email.request_id@,
                payload::opt(v.error),
                code_unless(
                    v.success,
                    if commit {
                        "VBC_SIGN_COMMIT_FAILED"@
                    } else {
                        "VBC_SIGN_FAILED"@
                    },
                ),
            ),
            Err(e) => r matches Err(got) && got@ == ErrorView::LambdaError(
                "CBOR decode VBC response: "@ + e@,
            ),
        },
{
    match reply {
        Ok(v) => Ok(
            outcome(
                email.request_id.as_str(),
                v.success,
                v.error,
                if commit {
                    "VBC_SIGN_COMMIT_FAILED"
                } else {
                    "VBC_SIGN_FAILED"
                },
            ),
        ),
        Err(e) => Err(AntieError::LambdaError(labelled("CBOR decode VBC response: ", e.as_str()))),
    }
}

// ---------------------------------------------------------------------------
// Scars
// ---------------------------------------------------------------------------

/// What is missing of a request to heal a scar, if anything.
pub open spec fn heal_error(p: payload::PayloadView) -> Option<ErrorView> {
    if p.scar_recovery_proof is None {
        Some(ErrorView::InvalidPayload("Missing scar_recovery_proof"@))
    } else if p.target_wallet_id is None {
        Some(ErrorView::InvalidPayload("Missing target_wallet_id"@))
    } else {
        None
    }
}

/// The proof and the wallet of a request to heal a scar.
pub fn scar_heal_request(email: &AntieEmail) -> (r: Result<(JsonValue, String), AntieError>)
    ensures
        match heal_error(email@.payload) {
            Some(e) => r matches Err(got) && got@ == e,
            None => r matches Ok(q) && Some(q.0@) == email@.payload.scar_recovery_proof && Some(q.1@)
                == email@.payload.target_wallet_id,
        },
{
    let proof_data = match &email.payload.scar_recovery_proof {
        Some(p) => p.clone(),
        None => {
            return Err(AntieError::payload("Missing scar_recovery_proof"));
        },
    };
    let target = match &email.payload.target_wallet_id {
        Some(t) => t.clone(),
        None => {
            return Err(AntieError::payload("Missing target_wallet_id"));
        },
    };
    Ok((proof_data, target))
}

/// What the ledger service is asked, under a fresh id.
pub fn ledger_heal_request(proof_data: JsonValue, target_wallet_id: String) -> (r: LambdaScarHealRequest)
    ensures
        r.request_type@ == "scar_heal"@,
        email::is_uuid(r.request_id@),
        r.scar_recovery_proof == proof_data,
        r.target_wallet_id == target_wallet_id,
{
    LambdaScarHealRequest {
        request_type: String::from_str("scar_heal"),
        request_id: email::random_uuid(),
        scar_recovery_proof: proof_data,
        target_wallet_id,
    }
}

/// The body of the mail that passes a healed scar on.
pub open spec fn heal_body(proof_data: Json, wallet_id: Seq<char>) -> Seq<u8> {
    cbor::cbor(
        Json::Object(
            json::object_of(
                seq![
                    ("scar_recovery_proof"@, proof_data),
                    ("target_wallet_id"@, Json::Str(wallet_id)),
                ],
            ),
        ),
    )
}

/// Whether mails pass a healed scar on to each of the targets, in their order.
pub open spec fn are_heal_mails(
    mails: Seq<Delivery>,
    identity: Seq<char>,
    proof_data: Json,
    targets: Seq<DownstreamTarget>,
) -> bool {
    &&& mails.len() == targets.len()
    &&& forall|i: int|
        0 <= i < targets.len() ==> (#[trigger] mails[i]).to@ == targets[i].email@ && email::is_notice(
            mails[i].mail@,
            identity,
            targets[i].email@,
            "scar_heal"@,
            heal_body(proof_data, targets[i].wallet_id@),
        )
}

/// The answer to a request to heal a scar, and the mails that pass a healed scar on.
pub fn scar_heal_answer(
    email: &AntieEmail,
    identity: &str,
    proof_data: &JsonValue,
    reply: ScarHealResponse,
) -> (r: (ResponsePayload, Vec<Delivery>))
    ensures
        !reply.success ==> r.0.says(
            false,
            email.request_id@,
            payload::opt(reply.error),
            Some("SCAR_HEAL_FAILED"@),
        ) && r.1@.len() == 0,
        reply.success ==> r.0.says(true, email.request_id@, None, None) && are_heal_mails(
            r.1@,
            identity@,
            proof_data@,
            reply.downstream_targets@,
        ),
{
    let mut mails: Vec<Delivery> = Vec::new();
    if !reply.success {
        return (
            ResponsePayload::bare(
                false,
                email.request_id.as_str(),
                reply.error,
                Some("SCAR_HEAL_FAILED"),
            ),
            mails,
        );
    }
    let targets = reply.downstream_targets;
    let mut i: usize = 0;
    while i < targets.len()
        invariant
            i <= targets@.len(),
            mails@.len() == i,
            forall|k: int|
                0 <= k < i ==> (#[trigger] mails@[k]).to@ == targets@[k].email@ && email::is_notice(
                    mails@[k].mail@,
                    identity@,
                    targets@[k].email@,
                    "scar_heal"@,
                    heal_body(proof_data@, targets@[k].wallet_id@),
                ),
        decreases targets@.len() - i,
    {
        let mail = build_scar_heal_email(
            identity,
            targets[i].email.as_str(),
            proof_data,
            targets[i].wallet_id.as_str(),
        );
        mails.push(Delivery { to: targets[i].email.clone(), mail });
        i = i + 1;
    }
    (ResponsePayload::bare(true, email.request_id.as_str(), None, None), mails)
}

// ---------------------------------------------------------------------------
// Owner proofs
// ---------------------------------------------------------------------------

/// What is wrong with a request to set an owner proof, if anything.
pub open spec fn auth_error(p: payload::PayloadView) -> Option<ErrorView> {
    if p.public_key is None {
        Some(ErrorView::InvalidPayload("Missing public_key"@))
    } else {
        match p.auth_hash {
            None => Some(ErrorView::InvalidPayload("Missing auth_hash"@)),
            Some(h) => if h.len() != 32 {
                Some(
                    ErrorView::InvalidPayload("auth_hash must be 32 bytes, got "@ + text::dec(h.len())),
                )
            } else {
                None
            },
        }
    }
}

/// The wallet key and the hash of a request to set an owner proof.
pub fn set_auth_hash_request(email: &AntieEmail) -> (r: Result<(Vec<u8>, Vec<u8>), AntieError>)
    ensures
        match auth_error(email@.payload) {
            Some(e) => r matches Err(got) && got@ == e,
            None => r matches Ok(q) && Some(q.0@) == email@.payload.public_key && Some(q.1@)
                == email@.payload.auth_hash,
        },
{
    let public_key = match copy_bytes(&email.payload.public_key) {
        Some(k) => k,
        None => {
            return Err(AntieError::payload("Missing public_key"));
        },
    };
    let auth_hash = match copy_bytes(&email.payload.auth_hash) {
        Some(k) => k,
        None => {
            return Err(AntieError::payload("Missing auth_hash"));
        },
    };
    let len: usize = auth_hash.len();
    if len != 32 {
        let mut m = String::from_str("auth_hash must be 32 bytes, got ");
        text::push_dec(&mut m, len as u64);
        return Err(AntieError::InvalidPayload(m));
    }
    Ok((public_key, auth_hash))
}

/// The answer to a request to set an owner proof.
pub fn set_auth_hash_answer(email: &AntieEmail, reply: SetAuthHashResponse) -> (r: ResponsePayload)
    ensures
        r.says(
            reply.success,
            email.request_id@,
            payload::opt(reply.error),
            code_unless(reply.success, "SET_AUTH_HASH_FAILED"@),
        ),
{
    outcome(email.request_id.as_str(), reply.success, reply.error, "SET_AUTH_HASH_FAILED")
}

// ---------------------------------------------------------------------------
// Audits
// ---------------------------------------------------------------------------

/// What is wrong with an audit question or answer, if anything. `fault` is what is wrong with
/// its form.
pub open spec fn audit_error(value: Option<Json>, name: Seq<char>, fault: Option<Seq<char>>) -> Option<
    ErrorView,
> {
    match value {
        None => Some(ErrorView::InvalidPayload("Missing "@ + name)),
        Some(_) => match fault {
            Some(e) => Some(ErrorView::InvalidPayload("Invalid "@ + name + ": "@ + e)),
            None => None,
        },
    }
}

fn audit_value(value: &Option<JsonValue>, name: &str, fault: Option<String>) -> (r: Result<
    JsonValue,
    AntieError,
>)
    ensures
        match audit_error(opt_json(*value), name@, payload::opt(fault)) {
            Some(e) => r matches Err(got) && got@ == e,
            None => r matches Ok(v) && Some(v@) == opt_json(*value),
        },
{
    match value {
        None => Err(AntieError::InvalidPayload(labelled("Missing ", name))),
        Some(v) => match fault {
            Some(e) => {
                let mut m = labelled("Invalid ", name);
                m.append(": ");
                m.append(e.as_str());
                Err(AntieError::InvalidPayload(m))
            },
            None => Ok(v.clone()),
        },
    }
}

/// Another validator's question. `fault` is what is wrong with its form.
pub fn peer_audit_request(email: &AntieEmail, fault: Option<String>) -> (r: Result<JsonValue, AntieError>)
    ensures
        match audit_error(email@.payload.peer_audit_request, "peer_audit_request"@, payload::opt(fault)) {
            Some(e) => r matches Err(got) && got@ == e,
            None => r matches Ok(v) && Some(v@) == email@.payload.peer_audit_request,
        },
{
    audit_value(&email.payload.peer_audit_request, "peer_audit_request", fault)
}

/// The answer to another validator's question: to the asking mail, and by a mail of its own to
/// the asking validator if there is something to tell.
pub fn peer_audit_answer(email: &AntieEmail, identity: &str, reply: PeerAuditResult) -> (r: (
    ResponsePayload,
    Option<Delivery>,
))
    ensures
        r.0.says(reply.success, email.request_id@, payload::opt(reply.error), None),
        match (reply.response, reply.requester_email) {
            (Some(v), Some(to)) => r.1 matches Some(d) && d.to@ == to@ && email::is_notice(
                d.mail@,
                identity@,
                to@,
                "peer_audit_response"@,
                cbor::cbor(Json::Object(json::object_of(seq![("peer_audit_response"@, v@)]))),
            ),
            _ => r.1 is None,
        },
{
    let mail = match (&reply.response, &reply.requester_email) {
        (Some(v), Some(to)) => Some(
            Delivery {
                to: to.clone(),
                mail: build_peer_audit_response_email(identity, to.as_str(), v),
            },
        ),
        _ => None,
    };
    (ResponsePayload::bare(reply.success, email.request_id.as_str(), reply.error, None), mail)
}

/// Another validator's answer. `fault` is what is wrong with its form.
pub fn peer_audit_response(email: &AntieEmail, fault: Option<String>) -> (r: Result<JsonValue, AntieError>)
    ensures
        match audit_error(
            email@.payload.peer_audit_response,
            "peer_audit_response"@,
            payload::opt(fault),
        ) {
            Some(e) => r matches Err(got) && got@ == e,
            None => r matches Ok(v) && Some(v@) == email@.payload.peer_audit_response,
        },
{
    audit_value(&email.payload.peer_audit_response, "peer_audit_response", fault)
}

/// The answer to another validator's answer, whatever the ledger service made of it.
pub fn peer_audit_noted(email: &AntieEmail) -> (r: ResponsePayload)
    ensures
        r.says(true, email.request_id@, None, None),
{
    ResponsePayload::bare(true, email.request_id.as_str(), None, None)
}

proof fn lemma_sign_names()
    ensures
        "type"@.len() == 4,
        "request_id"@.len() == 10 && "request_id"@[0] == 'r',
        "sphincs_pk_hex"@.len() == 14 && "sphincs_pk_hex"@[0] == 's',
        "dilithium_pk_hex"@.len() == 16,
        "ed25519_pk_hex"@.len() == 14 && "ed25519_pk_hex"@[0] == 'e',
        "pgp_fingerprint_hex"@.len() == 19,
        "proof_cap"@.len() == 9 && "proof_cap"@[0] == 'p',
        "node_name"@.len() == 9 && "node_name"@[0] == 'n',
        "issued_at"@.len() == 9 && "issued_at"@[0] == 'i',
        "expires_at"@.len() == 10 && "expires_at"@[0] == 'e',
        "chain_depth"@.len() == 11,
        "issuer_set_hex"@.len() == 14 && "issuer_set_hex"@[0] == 'i',
{
    reveal_strlit("type");
    reveal_strlit("request_id");
    reveal_strlit("sphincs_pk_hex");
    reveal_strlit("dilithium_pk_hex");
    reveal_strlit("ed25519_pk_hex");
    reveal_strlit("pgp_fingerprint_hex");
    reveal_strlit("proof_cap");
    reveal_strlit("node_name");
    reveal_strlit("issued_at");
    reveal_strlit("expires_at");
    reveal_strlit("chain_depth");
    reveal_strlit("issuer_set_hex");
}

/// A signing request in CBOR holds under each name that part of the request, once, and no other;
/// where the request lacks the part, the name is not there.
pub proof fn law_signing_request_holds_its_parts(q: VbcSignRequest)
    ensures
        cbor_map::holds_only(sign_request_fields(q), "type"@, Some(cbor::text_item(q.request_type@))),
        cbor_map::holds_only(sign_request_fields(q), "request_id"@, Some(cbor::text_item(q.request_id@))),
        cbor_map::holds_only(sign_request_fields(q), "sphincs_pk_hex"@, Some(cbor::text_item(q.sphincs_pk_hex@))),
        cbor_map::holds_only(sign_request_fields(q), "dilithium_pk_hex"@, Some(cbor::text_item(q.dilithium_pk_hex@))),
        cbor_map::holds_only(sign_request_fields(q), "ed25519_pk_hex"@, Some(cbor::text_item(q.ed25519_pk_hex@))),
        cbor_map::holds_only(sign_request_fields(q), "pgp_fingerprint_hex"@, Some(cbor::text_item(q.pgp_fingerprint_hex@))),
        cbor_map::holds_only(sign_request_fields(q), "proof_cap"@, Some(cbor::text_item(q.proof_cap@))),
        cbor_map::holds_only(sign_request_fields(q), "node_name"@, Some(cbor::text_item(q.node_name@))),
        cbor_map::holds_only(sign_request_fields(q), "issued_at"@, number_item(q.issued_at)),
        cbor_map::holds_only(sign_request_fields(q), "expires_at"@, number_item(q.expires_at)),
        cbor_map::holds_only(sign_request_fields(q), "chain_depth"@, number_item(wide(q.chain_depth))),
        cbor_map::holds_only(sign_request_fields(q), "issuer_set_hex"@, texts_item(text::views(q.issuer_set_hex@))),
{
    let parts: Seq<(Seq<char>, Option<Seq<u8>>)> = seq![
        ("type"@, Some(cbor::text_item(q.request_type@))),
        ("request_id"@, Some(cbor::text_item(q.request_id@))),
        ("sphincs_pk_hex"@, Some(cbor::text_item(q.sphincs_pk_hex@))),
        ("dilithium_pk_hex"@, Some(cbor::text_item(q.dilithium_pk_hex@))),
        ("ed25519_pk_hex"@, Some(cbor::text_item(q.ed25519_pk_hex@))),
        ("pgp_fingerprint_hex"@, Some(cbor::text_item(q.pgp_fingerprint_hex@))),
        ("proof_cap"@, Some(cbor::text_item(q.proof_cap@))),
        ("node_name"@, Some(cbor::text_item(q.node_name@))),
        ("issued_at"@, number_item(q.issued_at)),
        ("expires_at"@, number_item(q.expires_at)),
        ("chain_depth"@, number_item(wide(q.chain_depth))),
        ("issuer_set_hex"@, texts_item(text::views(q.issuer_set_hex@))),
    ];
    lemma_sign_names();
    assert(cbor_map::named_apart(parts));
    reveal_with_fuel(cbor_map::written, 13);
    let w8 = cbor_map::written(parts.take(8));
    assert(parts.drop_last().drop_last().drop_last().drop_last() == parts.take(8));
    let eight = sign_request_fields(q).take(8);
    cbor_map::lemma_whole_parts(parts.take(8));
    assert(w8 == eight);
    assert(cbor_map::written(parts) == sign_request_fields(q));
    cbor_map::lemma_parts_held(parts, 0);
    cbor_map::lemma_parts_held(parts, 1);
    cbor_map::lemma_parts_held(parts, 2);
    cbor_map::lemma_parts_held(parts, 3);
    cbor_map::lemma_parts_held(parts, 4);
    cbor_map::lemma_parts_held(parts, 5);
    cbor_map::lemma_parts_held(parts, 6);
    cbor_map::lemma_parts_held(parts, 7);
    cbor_map::lemma_parts_held(parts, 8);
    cbor_map::lemma_parts_held(parts, 9);
    cbor_map::lemma_parts_held(parts, 10);
    cbor_map::lemma_parts_held(parts, 11);
}

/// The request as the ledger service reads it holds under each name what the mail says: the
/// subject's keys, what it can prove, its name, and, to be signed, the term, the depth and the
/// issuers.
pub proof fn law_signing_request_says_what_the_mail_says(q: VbcSignRequest, kind: Seq<char>, m: email::EmailView)
    requires
        is_sign_request(q, kind, m),
    ensures
        cbor_map::holds_only(sign_request_fields(q), "type"@, Some(cbor::text_item(kind))),
        cbor_map::holds_only(sign_request_fields(q), "request_id"@, Some(cbor::text_item(m.request_id))),
        m.payload.sphincs_pk_hex matches Some(k) && cbor_map::holds_only(
            sign_request_fields(q),
            "sphincs_pk_hex"@,
            Some(cbor::text_item(k)),
        ),
        m.payload.dilithium_pk_hex matches Some(k) && cbor_map::holds_only(
            sign_request_fields(q),
            "dilithium_pk_hex"@,
            Some(cbor::text_item(k)),
        ),
        m.payload.ed25519_pk_hex matches Some(k) && cbor_map::holds_only(
            sign_request_fields(q),
            "ed25519_pk_hex"@,
            Some(cbor::text_item(k)),
        ),
        m.payload.pgp_fingerprint_hex matches Some(k) ==> cbor_map::holds_only(
            sign_request_fields(q),
            "pgp_fingerprint_hex"@,
            Some(cbor::text_item(k)),
        ),
        m.payload.proof_cap matches Some(k) ==> cbor_map::holds_only(
            sign_request_fields(q),
            "proof_cap"@,
            Some(cbor::text_item(k)),
        ),
        m.payload.node_name_field matches Some(k) ==> cbor_map::holds_only(
            sign_request_fields(q),
            "node_name"@,
            Some(cbor::text_item(k)),
        ),
        m.payload.pgp_fingerprint_hex is None ==> q.pgp_fingerprint_hex@.len() == 0,
        m.payload.proof_cap is None ==> q.proof_cap@.len() == 0,
        m.payload.node_name_field is None ==> q.node_name@.len() == 0,
{
    law_signing_request_holds_its_parts(q);
}

/// What a query tells of a wallet: under each name that part of its state.
pub proof fn law_wallet_state_is_told(s: WalletState)
    ensures
        state_json(s) is Object,
        json::lookup(state_json(s)->Object_0, "balance"@) == Some(Json::PosInt(s.balance)),
        json::lookup(state_json(s)->Object_0, "wallet_seq"@) == Some(Json::PosInt(s.wallet_seq)),
        json::lookup(state_json(s)->Object_0, "public_key"@) == Some(bytes_json(s.public_key@)),
        json::lookup(state_json(s)->Object_0, "state_id"@) == Some(bytes_json(s.state_id@)),
{
    let e: Seq<(Seq<char>, Json)> = seq![
        ("balance"@, Json::PosInt(s.balance)),
        ("wallet_seq"@, Json::PosInt(s.wallet_seq)),
        ("public_key"@, bytes_json(s.public_key@)),
        ("state_id"@, bytes_json(s.state_id@)),
    ];
    reveal_strlit("balance");
    reveal_strlit("wallet_seq");
    reveal_strlit("public_key");
    reveal_strlit("state_id");
    assert("balance"@.len() == 7);
    assert("wallet_seq"@.len() == 10 && "wallet_seq"@[0] == 'w');
    assert("public_key"@.len() == 10 && "public_key"@[0] == 'p');
    assert("state_id"@.len() == 8);
    assert(json::no_key_twice(e));
    json::law_object_holds_its_entries(e, 0);
    json::law_object_holds_its_entries(e, 1);
    json::law_object_holds_its_entries(e, 2);
    json::law_object_holds_its_entries(e, 3);
}

/// What a validator tells of itself: under each name that part of its status.
pub proof fn law_status_is_told(s: ValidatorStatus)
    ensures
        status_json(s) is Object,
        json::lookup(status_json(s)->Object_0, "name"@) == Some(s.validator_name@),
        json::lookup(status_json(s)->Object_0, "validator_id"@) == Some(s.validator_id@),
        json::lookup(status_json(s)->Object_0, "proof_cap"@) == Some(s.proof_cap@),
        json::lookup(status_json(s)->Object_0, "carriers"@) == Some(s.carriers@),
        json::lookup(status_json(s)->Object_0, "core_version"@) == Some(s.core_version@),
        json::lookup(status_json(s)->Object_0, "uptime_secs"@) == Some(s.uptime_secs@),
        json::lookup(status_json(s)->Object_0, "witness_count"@) == Some(s.witness_count@),
        json::lookup(status_json(s)->Object_0, "redeem_count"@) == Some(s.redeem_count@),
        json::lookup(status_json(s)->Object_0, "zkp_qualified"@) == Some(s.zkp_qualified@),
{
    let e: Seq<(Seq<char>, Json)> = seq![
        ("name"@, s.validator_name@),
        ("validator_id"@, s.validator_id@),
        ("proof_cap"@, s.proof_cap@),
        ("carriers"@, s.carriers@),
        ("core_version"@, s.core_version@),
        ("uptime_secs"@, s.uptime_secs@),
        ("witness_count"@, s.witness_count@),
        ("redeem_count"@, s.redeem_count@),
        ("zkp_qualified"@, s.zkp_qualified@),
    ];
    reveal_strlit("name");
    reveal_strlit("validator_id");
    reveal_strlit("proof_cap");
    reveal_strlit("carriers");
    reveal_strlit("core_version");
    reveal_strlit("uptime_secs");
    reveal_strlit("witness_count");
    reveal_strlit("redeem_count");
    reveal_strlit("zkp_qualified");
    assert("name"@.len() == 4);
    assert("validator_id"@.len() == 12 && "validator_id"@[0] == 'v');
    assert("proof_cap"@.len() == 9);
    assert("carriers"@.len() == 8);
    assert("core_version"@.len() == 12 && "core_version"@[0] == 'c');
    assert("uptime_secs"@.len() == 11);
    assert("witness_count"@.len() == 13 && "witness_count"@[0] == 'w');
    assert("redeem_count"@.len() == 12 && "redeem_count"@[0] == 'r');
    assert("zkp_qualified"@.len() == 13 && "zkp_qualified"@[0] == 'z');
    assert(json::no_key_twice(e));
    json::law_object_holds_its_entries(e, 0);
    json::law_object_holds_its_entries(e, 1);
    json::law_object_holds_its_entries(e, 2);
    json::law_object_holds_its_entries(e, 3);
    json::law_object_holds_its_entries(e, 4);
    json::law_object_holds_its_entries(e, 5);
    json::law_object_holds_its_entries(e, 6);
    json::law_object_holds_its_entries(e, 7);
    json::law_object_holds_its_entries(e, 8);
}

/// Bytes in JSON are their numbers in order; a query for a wallet key given so is for that key.
pub proof fn law_bytes_are_their_numbers(b: Seq<u8>, o: Seq<(Seq<char>, Json)>)
    requires
        json::lookup(o, "wallet_pk"@) == Some(bytes_json(b)),
    ensures
        bytes_json(b) is Array,
        bytes_json(b)->Array_0.len() == b.len(),
        forall|i: int| 0 <= i < b.len() ==> #[trigger] bytes_json(b)->Array_0[i] == Json::PosInt(b[i] as u64),
        wallet_pk(Some(Json::Object(o))) == Some(b),
{
    let a = bytes_json(b)->Array_0;
    assert(payload::is_bytes(a));
    assert(a.map_values(|v: Json| v->PosInt_0 as u8) == b);
}

/// A query is for the key that it names, and for none if it names none, or names something that
/// is not a list of bytes.
pub proof fn law_query_is_for_the_key_named(params: Option<Json>, k: Seq<u8>)
    ensures
        wallet_pk(params) == Some(k) <==> params is Some && params->0 is Object && json::lookup(
            params->0->Object_0,
            "wallet_pk"@,
        ) == Some(bytes_json(k)),
{
    if params is Some && params->0 is Object {
        let o = params->0->Object_0;
        let v = json::lookup(o, "wallet_pk"@);
        if v == Some(bytes_json(k)) {
            law_bytes_are_their_numbers(k, o);
        }
        if wallet_pk(params) == Some(k) {
            let a = v->0->Array_0;
            assert(a.len() == k.len());
            assert forall|i: int| 0 <= i < a.len() implies a[i] == Json::PosInt(k[i] as u64) by {
                assert(a[i] matches Json::PosInt(u) && u <= 255);
                assert(k[i] == a[i]->PosInt_0 as u8);
            }
            assert(a == k.map_values(|x: u8| Json::PosInt(x as u64)));
        }
    }
}

/// The mails that pass a healed scar on go each to its own target, and carry the proof and the
/// wallet of that target.
pub proof fn law_each_target_hears_of_its_own_wallet(
    mails: Seq<Delivery>,
    identity: Seq<char>,
    proof_data: Json,
    targets: Seq<DownstreamTarget>,
    i: int,
)
    requires
        are_heal_mails(mails, identity, proof_data, targets),
        0 <= i < targets.len(),
    ensures
        mails.len() == targets.len(),
        mails[i].to@ == targets[i].email@,
        exists|o: Seq<(Seq<char>, Json)>|
            email::is_notice(
                mails[i].mail@,
                identity,
                targets[i].email@,
                "scar_heal"@,
                #[trigger] cbor::cbor(Json::Object(o)),
            ) && json::lookup(o, "target_wallet_id"@) == Some(Json::Str(targets[i].wallet_id@)) && json::lookup(
                o,
                "scar_recovery_proof"@,
            ) == Some(proof_data),
{
    let e = seq![("scar_recovery_proof"@, proof_data), ("target_wallet_id"@, Json::Str(targets[i].wallet_id@))];
    reveal_strlit("scar_recovery_proof");
    reveal_strlit("target_wallet_id");
    assert("scar_recovery_proof"@.len() == 19);
    assert("target_wallet_id"@.len() == 16);
    assert(json::no_key_twice(e));
    json::law_object_holds_its_entries(e, 0);
    json::law_object_holds_its_entries(e, 1);
    let o = json::object_of(e);
    assert(heal_body(proof_data, targets[i].wallet_id@) == cbor::cbor(Json::Object(o)));
    assert(mails[i].to@ == targets[i].email@);
}

/// The texts of a list are written in their order, each as a text, behind their number.
pub proof fn law_texts_stand_in_a_list(a: Seq<Seq<char>>, b: Seq<Seq<char>>, s: Seq<char>)
    ensures
        text_items(a + b) == text_items(a) + text_items(b),
        text_items(seq![s]) == cbor::text_item(s),
        texts_item(a) is None <==> a.len() == 0,
        texts_item(a) matches Some(c) ==> c == cbor::head(4, a.len()) + text_items(a),
    decreases b.len(),
{
    reveal_with_fuel(text_items, 2);
    assert(seq![s].drop_last().len() == 0);
    assert(Seq::<u8>::empty() + cbor::text_item(s) == cbor::text_item(s));
    if b.len() == 0 {
        assert(a + b == a);
        assert(text_items(a) + text_items(b) == text_items(a));
    } else {
        law_texts_stand_in_a_list(a, b.drop_last(), s);
        assert((a + b).drop_last() == a + b.drop_last());
        assert((a + b).last() == b.last());
        assert(text_items(a) + text_items(b.drop_last()) + cbor::text_item(b.last()) == text_items(a) + (
        text_items(b.drop_last()) + cbor::text_item(b.last())));
    }
}

/// Optional numbers read back as themselves.
pub proof fn law_numbers_read_back(n: u64, rest: Seq<u8>)
    ensures
        number_item(None) is None,
        number_item(Some(n)) matches Some(c) && cbor::item_at(c + rest, 0, 0) == Ok::<(Json, int), Seq<char>>(
            (Json::PosInt(n), c.len() as int),
        ),
{
    cbor::law_json_cbor_json(Json::PosInt(n), rest);
}

/// The ledger service's answer to a signing request says whether it succeeded, and an error; both
/// may be missing.
pub proof fn law_signing_answer_is_by_name(o: Seq<(Seq<char>, Json)>, success: bool, error: Seq<char>)
    ensures
        json::lookup(o, "success"@) == Some(Json::Bool(success)) && json::lookup(o, "error"@) == Some(
            Json::Str(error),
        ) ==> vbc_reply(Json::Object(o)) == Some((success, Some(error))),
        json::lookup(o, "success"@) == Some(Json::Bool(success)) && (json::lookup(o, "error"@) is None
            || json::lookup(o, "error"@) == Some(Json::Null)) ==> vbc_reply(Json::Object(o)) == Some(
            (success, None::<Seq<char>>),
        ),
        json::lookup(o, "success"@) is None && json::lookup(o, "error"@) == Some(Json::Str(error)) ==> vbc_reply(
            Json::Object(o),
        ) == Some((false, Some(error))),
{
}

/// An acknowledgement is refused exactly for what it lacks, the first thing first.
pub proof fn law_acknowledgement_needs_its_parts(p: payload::PayloadView)
    ensures
        ack_error(p) is None <==> p.txid is Some && p.txid->0.len() == 32 && p.validator_pk is Some && p.sender_sig is Some && p.client_pk is Some,
        ack_error(p) == Some(ErrorView::InvalidPayload("Missing txid"@)) <==> p.txid is None,
        ack_error(p) == Some(ErrorView::InvalidPayload("txid must be 32 bytes"@)) <==> p.txid is Some && p.txid->0.len() != 32,
        ack_error(p) == Some(ErrorView::InvalidPayload("Missing validator_pk"@)) <==> p.txid is Some && p.txid->0.len() == 32 && p.validator_pk is None,
        ack_error(p) == Some(ErrorView::InvalidPayload("Missing sender_sig"@)) <==> p.txid is Some && p.txid->0.len() == 32 && p.validator_pk is Some && p.sender_sig is None,
        ack_error(p) == Some(ErrorView::InvalidPayload("Missing client_pk"@)) <==> p.txid is Some && p.txid->0.len() == 32 && p.validator_pk is Some && p.sender_sig is Some && p.client_pk is None,
{
    reveal_strlit("Missing txid");
    reveal_strlit("txid must be 32 bytes");
    reveal_strlit("Missing validator_pk");
    reveal_strlit("Missing sender_sig");
    reveal_strlit("Missing client_pk");
    assert("Missing txid"@.len() == 12);
    assert("txid must be 32 bytes"@.len() == 21);
    assert("Missing validator_pk"@.len() == 20);
    assert("Missing sender_sig"@.len() == 18);
    assert("Missing client_pk"@.len() == 17);
}

/// A certificate is refused exactly for the key that its subject lacks, the first one first.
pub proof fn law_subject_needs_its_keys(p: payload::PayloadView)
    ensures
        subject_error(p) is None <==> p.sphincs_pk_hex is Some && p.dilithium_pk_hex is Some && p.ed25519_pk_hex is Some,
        subject_error(p) == Some(ErrorView::InvalidPayload("Missing sphincs_pk_hex"@)) <==> p.sphincs_pk_hex is None,
        subject_error(p) == Some(ErrorView::InvalidPayload("Missing dilithium_pk_hex"@)) <==> p.sphincs_pk_hex is Some && p.dilithium_pk_hex is None,
        subject_error(p) == Some(ErrorView::InvalidPayload("Missing ed25519_pk_hex"@)) <==> p.sphincs_pk_hex is Some && p.dilithium_pk_hex is Some && p.ed25519_pk_hex is None,
{
    reveal_strlit("Missing sphincs_pk_hex");
    reveal_strlit("Missing dilithium_pk_hex");
    reveal_strlit("Missing ed25519_pk_hex");
    assert("Missing sphincs_pk_hex"@.len() == 22 && "Missing sphincs_pk_hex"@[8] == 's');
    assert("Missing dilithium_pk_hex"@.len() == 24);
    assert("Missing ed25519_pk_hex"@.len() == 22 && "Missing ed25519_pk_hex"@[8] == 'e');
}

/// A request to heal a scar is refused exactly for what it lacks, the proof first.
pub proof fn law_healing_needs_its_parts(p: payload::PayloadView)
    ensures
        heal_error(p) is None <==> p.scar_recovery_proof is Some && p.target_wallet_id is Some,
        heal_error(p) == Some(ErrorView::InvalidPayload("Missing scar_recovery_proof"@)) <==> p.scar_recovery_proof is None,
        heal_error(p) == Some(ErrorView::InvalidPayload("Missing target_wallet_id"@)) <==> p.scar_recovery_proof is Some && p.target_wallet_id is None,
{
    reveal_strlit("Missing scar_recovery_proof");
    reveal_strlit("Missing target_wallet_id");
    assert("Missing scar_recovery_proof"@.len() == 27);
    assert("Missing target_wallet_id"@.len() == 24);
}

/// A wallet is opened for a request with a key and a balance and without a fault in its group.
pub proof fn law_genesis_needs_its_parts(p: payload::PayloadView, fault: Option<Seq<char>>)
    ensures
        genesis_error(p, fault) is None <==> p.public_key is Some && p.balance is Some && fault is None,
        p.public_key is None ==> genesis_error(p, fault) == Some(ErrorView::InvalidPayload("Missing public_key"@)),
        p.public_key is Some && p.balance is None ==> genesis_error(p, fault) == Some(
            ErrorView::InvalidPayload("Missing balance"@),
        ),
        p.public_key is Some && p.balance is Some && fault is Some ==> genesis_error(p, fault) == Some(
            ErrorView::InvalidPayload("Invalid group_members: "@ + fault->0),
        ),
{
}

/// A certificate is signed for a subject with its keys, a term, a depth and three issuers.
pub proof fn law_commit_needs_its_parts(p: payload::PayloadView)
    ensures
        commit_error(p) is None <==> p.sphincs_pk_hex is Some && p.dilithium_pk_hex is Some && p.ed25519_pk_hex is Some
            && p.issued_at is Some && p.expires_at is Some && p.chain_depth is Some && p.issuer_set_hex.len() == 3,
        subject_error(p) is Some ==> commit_error(p) == subject_error(p),
        subject_error(p) is None && p.issued_at is None ==> commit_error(p) == Some(
            ErrorView::InvalidPayload("Missing issued_at"@),
        ),
        subject_error(p) is None && p.issued_at is Some && p.expires_at is None ==> commit_error(p) == Some(
            ErrorView::InvalidPayload("Missing expires_at"@),
        ),
        subject_error(p) is None && p.issued_at is Some && p.expires_at is Some && p.chain_depth is None
            ==> commit_error(p) == Some(ErrorView::InvalidPayload("Missing chain_depth"@)),
{
}

/// An owner proof is set for a request with a key and a hash of thirty-two bytes.
pub proof fn law_owner_proof_needs_its_parts(p: payload::PayloadView)
    ensures
        auth_error(p) is None <==> p.public_key is Some && p.auth_hash is Some && p.auth_hash->0.len() == 32,
        p.public_key is None ==> auth_error(p) == Some(ErrorView::InvalidPayload("Missing public_key"@)),
        p.public_key is Some && p.auth_hash is None ==> auth_error(p) == Some(
            ErrorView::InvalidPayload("Missing auth_hash"@),
        ),
{
}

/// A question or an answer of another validator is taken up if it is there and well-formed.
pub proof fn law_audit_needs_a_value(value: Option<Json>, name: Seq<char>, fault: Option<Seq<char>>)
    ensures
        audit_error(value, name, fault) is None <==> value is Some && fault is None,
        value is None ==> audit_error(value, name, fault) == Some(ErrorView::InvalidPayload("Missing "@ + name)),
        value is Some && fault is Some ==> audit_error(value, name, fault) == Some(
            ErrorView::InvalidPayload("Invalid "@ + name + ": "@ + fault->0),
        ),
{
}

/// An answer bears the code of a failure exactly if the request failed.
pub proof fn law_code_is_for_failures(success: bool, code: Seq<char>)
    ensures
        code_unless(success, code) is None <==> success,
        !success ==> code_unless(success, code) == Some(code),
{
}

/// A signing request in JSON holds under each name that part of the request; the term, the depth
/// and the issuers are there exactly if the request has them.
pub proof fn law_signing_request_in_json(q: VbcSignRequest)
    ensures
        json::lookup(json::object_of(sign_entries(q)), "type"@) == Some(Json::Str(q.request_type@)),
        json::lookup(json::object_of(sign_entries(q)), "request_id"@) == Some(Json::Str(q.request_id@)),
        json::lookup(json::object_of(sign_entries(q)), "sphincs_pk_hex"@) == Some(Json::Str(q.sphincs_pk_hex@)),
        json::lookup(json::object_of(sign_entries(q)), "dilithium_pk_hex"@) == Some(Json::Str(q.dilithium_pk_hex@)),
        json::lookup(json::object_of(sign_entries(q)), "ed25519_pk_hex"@) == Some(Json::Str(q.ed25519_pk_hex@)),
        json::lookup(json::object_of(sign_entries(q)), "pgp_fingerprint_hex"@) == Some(Json::Str(q.pgp_fingerprint_hex@)),
        json::lookup(json::object_of(sign_entries(q)), "proof_cap"@) == Some(Json::Str(q.proof_cap@)),
        json::lookup(json::object_of(sign_entries(q)), "node_name"@) == Some(Json::Str(q.node_name@)),
        json::lookup(json::object_of(sign_entries(q)), "issued_at"@) == (match q.issued_at {
            Some(n) => Some(Json::PosInt(n)),
            None => None,
        }),
        json::lookup(json::object_of(sign_entries(q)), "expires_at"@) == (match q.expires_at {
            Some(n) => Some(Json::PosInt(n)),
            None => None,
        }),
        json::lookup(json::object_of(sign_entries(q)), "chain_depth"@) == (match q.chain_depth {
            Some(n) => Some(Json::PosInt(n as u64)),
            None => None,
        }),
        json::lookup(json::object_of(sign_entries(q)), "issuer_set_hex"@) is None <==> q.issuer_set_hex@.len() == 0,
        q.issuer_set_hex@.len() > 0 ==> json::lookup(json::object_of(sign_entries(q)), "issuer_set_hex"@) == Some(
            texts_json(text::views(q.issuer_set_hex@)),
        ),
{
    lemma_sign_names();
    let e = sign_entries(q);
    let a = sign_fields(q);
    let b = number_entry("issued_at"@, q.issued_at);
    let c = number_entry("expires_at"@, q.expires_at);
    let d = number_entry("chain_depth"@, wide(q.chain_depth));
    let f = if q.issuer_set_hex@.len() == 0 {
        Seq::empty()
    } else {
        seq![("issuer_set_hex"@, texts_json(text::views(q.issuer_set_hex@)))]
    };
    assert(e == a + b + c + d + f);
    let n1 = 8int;
    let n2 = n1 + b.len();
    let n3 = n2 + c.len();
    let n4 = n3 + d.len();
    assert(forall|i: int| 0 <= i < 8 ==> #[trigger] e[i] == a[i]);
    assert(b.len() == 1 ==> e[n1] == b[0]);
    assert(c.len() == 1 ==> e[n2] == c[0]);
    assert(d.len() == 1 ==> e[n3] == d[0]);
    assert(f.len() == 1 ==> e[n4] == f[0]);
    assert(json::no_key_twice(e));
    json::law_object_holds_its_entries(e, 0);
    json::law_object_holds_its_entries(e, 1);
    json::law_object_holds_its_entries(e, 2);
    json::law_object_holds_its_entries(e, 3);
    json::law_object_holds_its_entries(e, 4);
    json::law_object_holds_its_entries(e, 5);
    json::law_object_holds_its_entries(e, 6);
    json::law_object_holds_its_entries(e, 7);
    json::law_object_holds_the_last(e, "issued_at"@);
    json::law_object_holds_the_last(e, "expires_at"@);
    json::law_object_holds_the_last(e, "chain_depth"@);
    json::law_object_holds_the_last(e, "issuer_set_hex"@);
    if b.len() == 1 {
        json::law_object_holds_its_entries(e, n1);
    }
    if c.len() == 1 {
        json::law_object_holds_its_entries(e, n2);
    }
    if d.len() == 1 {
        json::law_object_holds_its_entries(e, n3);
    }
    if f.len() == 1 {
        json::law_object_holds_its_entries(e, n4);
    }
}


/// What is said of a body that cannot be read names its kind, the fault and its length.
pub proof fn law_unreadable_bodies_are_named(kind: Seq<char>, fault: Seq<char>, len: nat)
    ensures
        decode_error(kind, fault, len) == ErrorView::InvalidPayload(
            kind + " CBOR decode failed: "@ + fault + " (body_len="@ + text::dec(len) + ")"@,
        ),
{
}

/// An answer to a signing request may also be a list of the two parts in order. Parts of
/// another kind, and more than two of them, are no answer.
pub proof fn law_signing_answer_by_place(j: Json, o: Seq<(Seq<char>, Json)>, a: Seq<Json>, success: bool, error: Seq<char>)
    ensures
        vbc_reply(Json::Array(seq![Json::Bool(success), Json::Str(error)])) == Some((success, Some(error))),
        vbc_reply(Json::Array(seq![Json::Bool(success)])) == Some((success, None::<Seq<char>>)),
        vbc_reply(Json::Array(Seq::empty())) == Some((false, None::<Seq<char>>)),
        a.len() > 2 ==> vbc_reply(Json::Array(a)) is None,
        !(j is Object) && !(j is Array) ==> vbc_reply(j) is None,
        json::lookup(o, "success"@) matches Some(v) ==> (!(v is Bool) ==> vbc_reply(Json::Object(o)) is None),
        json::lookup(o, "error"@) matches Some(v) ==> (!(v is Str) && !(v is Null) ==> vbc_reply(Json::Object(o)) is None),
        json::lookup(o, "success"@) is None && json::lookup(o, "error"@) is None ==> vbc_reply(Json::Object(o)) == Some(
            (false, None::<Seq<char>>),
        ),
{
}

/// What a wallet to heal is sent holds the proof and the wallet under their names.
pub proof fn law_heal_body_holds_its_parts(proof_data: Json, wallet_id: Seq<char>) -> (o: Seq<(Seq<char>, Json)>)
    ensures
        heal_body(proof_data, wallet_id) == cbor::cbor(Json::Object(o)),
        json::lookup(o, "scar_recovery_proof"@) == Some(proof_data),
        json::lookup(o, "target_wallet_id"@) == Some(Json::Str(wallet_id)),
{
    let e: Seq<(Seq<char>, Json)> = seq![
        ("scar_recovery_proof"@, proof_data),
        ("target_wallet_id"@, Json::Str(wallet_id)),
    ];
    reveal_strlit("scar_recovery_proof");
    reveal_strlit("target_wallet_id");
    assert("scar_recovery_proof"@.len() == 19 && "target_wallet_id"@.len() == 16);
    assert(json::no_key_twice(e));
    json::law_object_holds_its_entries(e, 0);
    json::law_object_holds_its_entries(e, 1);
    json::object_of(e)
}

} // verus!
