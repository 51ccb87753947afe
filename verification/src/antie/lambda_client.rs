//! The ledger service, Lambda, as the gateway speaks to it: frames of CBOR,
//! each behind its length, and answers that must be of the kind asked for.
//!
//! What the gateway only passes on it holds in CBOR, as it came.
use vstd::prelude::*;
use crate::antie::error::{labelled, AntieError, ErrorView};
use crate::antie::payload;
use crate::json::JsonValue;
use crate::paths;
use crate::text;

verus! {

// ---------------------------------------------------------------------------
// Frames
// ---------------------------------------------------------------------------

/// The largest answer that is read.
pub const MAX_FRAME_BYTES: u32 = 10_485_760;

/// A frame: the length of what it carries in four bytes, then that.
pub open spec fn framed(body: Seq<u8>) -> Seq<u8> {
    text::be_bytes(body.len(), 4) + body
}

/// Puts a request in a frame.
pub fn frame(body: &[u8]) -> (r: Vec<u8>)
    ensures
        r@ == framed(body@),
{
    let mut out: Vec<u8> = Vec::new();
    text::push_be(&mut out, body.len() as u64, 4);
    crate::antie::cbor::push_bytes(&mut out, body);
    out
}

/// The length that the head of a frame announces.
pub open spec fn announced(head: Seq<u8>) -> Result<nat, ErrorView> {
    if text::be_value(head) > MAX_FRAME_BYTES {
        Err(ErrorView::LambdaError("Response too large"@))
    } else {
        Ok(text::be_value(head))
    }
}

/// Reads the head of a frame: how long what follows is, if it may be so long.
pub fn response_length(head: &[u8; 4]) -> (r: Result<usize, AntieError>)
    ensures
        match announced(head@) {
            Ok(n) => r matches Ok(got) && got == n,
            Err(e) => r matches Err(got) && got@ == e,
        },
{
    let n: u64 = text::read_be(head.as_slice(), 0, 4);
    assert(head@.subrange(0, 4) == head@);
    if n > MAX_FRAME_BYTES as u64 {
        return Err(AntieError::LambdaError(String::from_str("Response too large")));
    }
    Ok(n as usize)
}

/// What is put in a frame within the limit is announced with its length, and
/// follows it unchanged.
pub proof fn law_frames_read_back(body: Seq<u8>)
    requires
        body.len() <= MAX_FRAME_BYTES,
    ensures
        announced(framed(body).take(4)) == Ok::<nat, ErrorView>(body.len()),
        framed(body).skip(4) == body,
{
    text::lemma_byte_ranges();
    text::lemma_be_bytes_len(body.len(), 4);
    text::lemma_be_round_trip(body.len(), 4);
    assert(framed(body).take(4) == text::be_bytes(body.len(), 4));
    assert(framed(body).skip(4) == body);
}

// ---------------------------------------------------------------------------
// Connections
// ---------------------------------------------------------------------------

/// How the ledger service is reached.
pub struct LambdaClientConfig {
    pub mode: LambdaConnectionMode,
}

/// How the ledger service is reached.
pub enum LambdaConnectionMode {
    /// At an address.
    Tcp { address: String, timeout_secs: u64 },
    /// As a process of its own.
    Subprocess { binary_path: String, config_path: String },
}

/// A client of the ledger service.
pub struct LambdaClient {
    mode: LambdaMode,
}

/// How a client reaches the ledger service.
pub enum LambdaMode {
    /// At an address, behind a name where it is secured. The certificates that it is trusted
    /// by are those of a file, if there is one.
    Tcp {
        address: String,
        timeout_secs: u64,
        server_name: Option<String>,
        ca_certs: Option<Vec<Vec<u8>>>,
    },
    /// As a process of its own.
    Subprocess { binary_path: String, config_path: String },
}

/// What is said against a name that no server can have.
pub uninterp spec fn server_name_fault(name: Seq<char>) -> Option<Seq<char>>;

/// `rustls::pki_types::ServerName::try_from`: the text of its error, if the name is neither a
/// DNS name nor an IP address.
#[verifier::external_body]
fn check_server_name(name: &str) -> (r: Option<String>)
    ensures
        payload::opt(r) == server_name_fault(name@),
{
    rustls::pki_types::ServerName::try_from(name.to_string()).err().map(|e| e.to_string())
}

/// What the certificates in a PEM file are, one after the other: each in DER, or why it
/// cannot be read.
pub uninterp spec fn pem_certs(pem: Seq<u8>) -> Seq<Result<Seq<u8>, Seq<char>>>;

/// `rustls_pemfile::certs`: the certificates in a PEM file, each in DER or as the text of the
/// error.
#[verifier::external_body]
fn read_pem(pem: &[u8]) -> (r: Vec<Result<Vec<u8>, String>>)
    ensures
        r@.map_values(|c: Result<Vec<u8>, String>| payload::file_view(c)) == pem_certs(pem@),
{
    let mut reader = pem;
    rustls_pemfile::certs(&mut reader).map(|c| c.map(|d| d.to_vec()).map_err(|e| e.to_string())).collect()
}

/// What is said against a certificate that cannot be trusted in.
pub uninterp spec fn anchor_fault(der: Seq<u8>) -> Option<Seq<char>>;

/// `rustls::RootCertStore::add` to an empty store: the text of its error, if the certificate
/// cannot be a root.
#[verifier::external_body]
fn check_anchor(der: &[u8]) -> (r: Option<String>)
    ensures
        payload::opt(r) == anchor_fault(der@),
{
    rustls::RootCertStore::empty().add(rustls::pki_types::CertificateDer::from(der)).err().map(|e| e.to_string())
}

/// What is wrong with the first faulty certificate from the `i`th on, if one is.
pub open spec fn ca_error_from(certs: Seq<Result<Seq<u8>, Seq<char>>>, i: int) -> Option<ErrorView>
    decreases certs.len() - i,
{
    if i < 0 || i >= certs.len() {
        None
    } else {
        match certs[i] {
            Err(e) => Some(ErrorView::ConfigError("TLS CA parse: "@ + e)),
            Ok(der) => match anchor_fault(der) {
                Some(e) => Some(ErrorView::ConfigError("TLS CA add: "@ + e)),
                None => ca_error_from(certs, i + 1),
            },
        }
    }
}

/// Checks the certificates that a service is to be trusted by, and returns them in DER. The
/// first that cannot be read or cannot be a root is an error.
pub fn check_ca(pem: &[u8]) -> (r: Result<Vec<Vec<u8>>, AntieError>)
    ensures
        match ca_error_from(pem_certs(pem@), 0) {
            Some(e) => r matches Err(got) && got@ == e,
            None => r matches Ok(certs) && are_certs(certs@, pem_certs(pem@)),
        },
{
    let found = read_pem(pem);
    let ghost all = found@;
    let ghost certs = pem_certs(pem@);
    let mut out: Vec<Vec<u8>> = Vec::new();
    let mut i: usize = 0;
    while i < found.len()
        invariant
            i <= found@.len(),
            found@ == all,
            certs == pem_certs(pem@),
            certs == all.map_values(|c: Result<Vec<u8>, String>| payload::file_view(c)),
            ca_error_from(certs, 0) == ca_error_from(certs, i as int),
            out@.len() == i,
            forall|k: int| 0 <= k < i ==> certs[k] == Ok::<Seq<u8>, Seq<char>>((#[trigger] out@[k])@),
        decreases found@.len() - i,
    {
        assert(certs[i as int] == payload::file_view(all[i as int]));
        match &found[i] {
            Err(e) => {
                return Err(AntieError::ConfigError(labelled("TLS CA parse: ", e.as_str())));
            },
            Ok(der) => {
                if let Some(e) = check_anchor(der.as_slice()) {
                    return Err(AntieError::ConfigError(labelled("TLS CA add: ", e.as_str())));
                }
                out.push(vstd::slice::slice_to_vec(der.as_slice()));
            },
        }
        i = i + 1;
    }
    Ok(out)
}

/// Whether certificates are those that were read.
pub open spec fn are_certs(certs: Seq<Vec<u8>>, read: Seq<Result<Seq<u8>, Seq<char>>>) -> bool {
    certs.len() == read.len() && forall|i: int|
        0 <= i < certs.len() ==> read[i] == Ok::<Seq<u8>, Seq<char>>((#[trigger] certs[i])@)
}

/// What is wrong with how a secured service is to be reached, if anything: with the file of
/// certificates first, then with the name. `ca` is what reading the file gave.
pub open spec fn tls_error(
    server_name: Seq<char>,
    ca_cert_path: Option<Seq<char>>,
    ca: Result<Seq<u8>, Seq<char>>,
) -> Option<ErrorView> {
    let ca_error = match ca_cert_path {
        Some(path) => match ca {
            Err(e) => Some(ErrorView::ConfigError("TLS CA cert "@ + path + ": "@ + e)),
            Ok(pem) => ca_error_from(pem_certs(pem), 0),
        },
        None => None,
    };
    match ca_error {
        Some(e) => Some(e),
        None => match server_name_fault(server_name) {
            Some(e) => Some(
                ErrorView::ConfigError("TLS server name '"@ + server_name + "': "@ + e),
            ),
            None => None,
        },
    }
}

/// Whether the certificates of a client are those of the file, if there is one.
pub open spec fn has_certs(
    ca_certs: Option<Vec<Vec<u8>>>,
    ca_cert_path: Option<Seq<char>>,
    ca: Result<Seq<u8>, Seq<char>>,
) -> bool {
    match ca_cert_path {
        Some(_) => ca_certs matches Some(certs) && (ca matches Ok(pem) && are_certs(
            certs@,
            pem_certs(pem),
        )),
        None => ca_certs is None,
    }
}

impl LambdaClient {
    /// How the client reaches the service.
    pub closed spec fn spec_mode(self) -> LambdaMode {
        self.mode
    }

    /// How the client reaches the service.
    pub fn mode(&self) -> (r: &LambdaMode)
        ensures
            *r == self.spec_mode(),
    {
        &self.mode
    }

    /// A client of a service at an address.
    pub fn new_tcp(address: &str, timeout_secs: u64) -> (r: Self)
        ensures
            r.spec_mode() matches LambdaMode::Tcp { address: a, timeout_secs: t, server_name, ca_certs }
                && a@ == address@ && t == timeout_secs && server_name is None && ca_certs is None,
    {
        LambdaClient {
            mode: LambdaMode::Tcp {
                address: String::from_str(address),
                timeout_secs,
                server_name: None,
                ca_certs: None,
            },
        }
    }

    /// A client of a secured service at an address. The certificates that it is trusted by must
    /// be in order, where there is a file of them, and its name must be one that a server can
    /// have. `ca` is what reading that file gave; it is not looked at where there is none.
    pub fn new_tcp_tls(
        address: &str,
        timeout_secs: u64,
        server_name: &str,
        ca_cert_path: Option<&str>,
        ca: Result<Vec<u8>, String>,
    ) -> (r: Result<Self, AntieError>)
        ensures
            match tls_error(server_name@, payload::opt_str(ca_cert_path), payload::file_view(ca)) {
                Some(e) => r matches Err(got) && got@ == e,
                None => r matches Ok(c) && (c.spec_mode() matches LambdaMode::Tcp {
                    address: a,
                    timeout_secs: t,
                    server_name: n,
                    ca_certs,
                } && a@ == address@ && t == timeout_secs && payload::opt(n) == Some(server_name@)
                    && has_certs(ca_certs, payload::opt_str(ca_cert_path), payload::file_view(ca))),
            },
    {
        let ca_certs = match ca_cert_path {
            Some(path) => match ca {
                Err(e) => {
                    let mut m = String::from_str("TLS CA cert ");
                    m.append(path);
                    m.append(": ");
                    m.append(e.as_str());
                    return Err(AntieError::ConfigError(m));
                },
                Ok(pem) => match check_ca(pem.as_slice()) {
                    Err(e) => {
                        return Err(e);
                    },
                    Ok(certs) => Some(certs),
                },
            },
            None => None,
        };
        if let Some(e) = check_server_name(server_name) {
            let mut m = String::from_str("TLS server name '");
            m.append(server_name);
            m.append("': ");
            m.append(e.as_str());
            return Err(AntieError::ConfigError(m));
        }
        Ok(
            LambdaClient {
                mode: LambdaMode::Tcp {
                    address: String::from_str(address),
                    timeout_secs,
                    server_name: Some(String::from_str(server_name)),
                    ca_certs,
                },
            },
        )
    }

    /// A client of a service that runs as a process of its own.
    pub fn new_subprocess(binary_path: String, config_path: String) -> (r: Self)
        ensures
            r.spec_mode() == (LambdaMode::Subprocess { binary_path, config_path }),
    {
        LambdaClient { mode: LambdaMode::Subprocess { binary_path, config_path } }
    }

    /// A client as configured.
    pub fn from_config(config: &LambdaClientConfig) -> (r: Self)
        ensures
            match config.mode {
                LambdaConnectionMode::Tcp { address, timeout_secs } => r.spec_mode() matches LambdaMode::Tcp {
                    address: a,
                    timeout_secs: t,
                    server_name,
                    ca_certs,
                } && a@ == address@ && t == timeout_secs && server_name is None && ca_certs is None,
                LambdaConnectionMode::Subprocess { binary_path, config_path } => r.spec_mode() matches LambdaMode::Subprocess {
                    binary_path: b,
                    config_path: c,
                } && b@ == binary_path@ && c@ == config_path@,
            },
    {
        match &config.mode {
            LambdaConnectionMode::Tcp { address, timeout_secs } => LambdaClient::new_tcp(
                address.as_str(),
                *timeout_secs,
            ),
            LambdaConnectionMode::Subprocess { binary_path, config_path } => LambdaClient::new_subprocess(
                binary_path.clone(),
                config_path.clone(),
            ),
        }
    }
}

// ---------------------------------------------------------------------------
// Answers
// ---------------------------------------------------------------------------

/// An error that the service reports.
pub struct ErrorInfo {
    pub code: String,
    pub message: String,
    /// The whole report, in CBOR.
    pub cbor: Vec<u8>,
}

impl ErrorInfo {
    /// The code, then the message.
    pub open spec fn summary(self) -> Seq<char> {
        self.code@ + ": "@ + self.message@
    }

    /// The code, then the message.
    pub fn summary_text(&self) -> (r: String)
        ensures
            r@ == self.summary(),
    {
        let mut out = self.code.clone();
        out.append(": ");
        out.append(self.message.as_str());
        out
    }
}

/// Why a witness was refused.
pub struct RejectionInfo {
    pub code: String,
    pub message: String,
}

/// A cheque: its transaction, and itself in CBOR.
pub struct ValidatorCheque {
    pub txid: [u8; 32],
    pub cbor: Vec<u8>,
}

/// A validator that is known to the service.
pub struct ValidatorHint {
    /// How to reach it, one address for each way.
    pub carriers: Vec<String>,
    /// All that is known of it, in CBOR.
    pub cbor: Vec<u8>,
}

/// An audit that another validator is to be asked for.
pub struct OutboundPeerAudit {
    pub target_email: String,
    pub request: JsonValue,
}

/// The answer to a witness request.
pub struct WitnessResponse {
    pub success: bool,
    pub request_id: String,
    pub witness_signature: Option<Vec<u8>>,
    pub cheque_for_receiver: Option<ValidatorCheque>,
    pub scar_consent_for_receiver: Option<Vec<u8>>,
    pub scar_consent_voucher: Option<Vec<u8>>,
    pub produced_state_id: Option<Vec<u8>>,
    pub receipt: Option<Vec<u8>>,
    pub commitment_hash: Option<Vec<u8>>,
    pub state_hash: Option<Vec<u8>>,
    pub receipt_commitment: Option<Vec<u8>>,
    pub txid: Vec<u8>,
    pub rejection: Option<RejectionInfo>,
    pub validator_hints: Vec<ValidatorHint>,
    pub sender_fact_chain: Option<Vec<u8>>,
    pub outbound_peer_audit: Option<OutboundPeerAudit>,
}

/// The answer to a redeem request.
pub struct RedeemResponse {
    pub success: bool,
    pub witness_signature: Option<Vec<u8>>,
    pub new_state_id: Option<Vec<u8>>,
    pub commitment_hash: Option<Vec<u8>>,
    pub state_hash: Option<Vec<u8>>,
    pub receipt_commitment: Option<Vec<u8>>,
    pub error_response: Option<ErrorInfo>,
    pub receiver_fact_chain: Option<Vec<u8>>,
    pub fact_signature: Option<Vec<u8>>,
}

/// The answer to an acknowledgement.
pub struct AckResponse {
    pub request_id: String,
    pub success: bool,
    pub error_response: Option<ErrorInfo>,
}

/// The answer to a genesis request.
pub struct GenesisResponse {
    pub success: bool,
    pub state_id: Option<Vec<u8>>,
    pub error: Option<String>,
}

/// What the service has stored of a wallet.
pub struct WalletState {
    pub balance: u64,
    pub wallet_seq: u64,
    pub public_key: Vec<u8>,
    pub state_id: Vec<u8>,
}

/// The answer to a query.
pub struct QueryResponse {
    pub found: bool,
    pub wallet_state: Option<WalletState>,
}

/// What a validator says of itself.
pub struct ValidatorStatus {
    pub validator_name: JsonValue,
    pub validator_id: JsonValue,
    pub proof_cap: JsonValue,
    pub carriers: JsonValue,
    pub core_version: JsonValue,
    pub uptime_secs: JsonValue,
    pub witness_count: JsonValue,
    pub redeem_count: JsonValue,
    pub zkp_qualified: JsonValue,
    pub known_validators: Vec<ValidatorHint>,
}

/// The answer to another validator's audit.
pub struct PeerAuditResult {
    pub success: bool,
    pub error: Option<String>,
    pub response: Option<JsonValue>,
    pub requester_email: Option<String>,
}

/// The answer to a change of the owner proof.
pub struct SetAuthHashResponse {
    pub success: bool,
    pub error: Option<String>,
}

/// A request to heal a scar.
pub struct LambdaScarHealRequest {
    pub request_type: String,
    pub request_id: String,
    pub scar_recovery_proof: JsonValue,
    pub target_wallet_id: String,
}

/// The answer to a request to heal a scar.
pub struct ScarHealResponse {
    pub success: bool,
    pub downstream_targets: Vec<DownstreamTarget>,
    pub error: Option<String>,
}

/// A wallet that a healed scar is passed on to.
pub struct DownstreamTarget {
    pub wallet_id: String,
    pub email: String,
}

/// An answer of the service.
pub enum GatewayResponse {
    WitnessResult(Box<WitnessResponse>),
    RedeemResult(RedeemResponse),
    AckResult(AckResponse),
    InitGenesisResult(GenesisResponse),
    StateResult(QueryResponse),
    Failure { request_id: String, error_response: ErrorInfo },
    Health { request_id: String, status: String },
    ValidatorStatusResult(ValidatorStatus),
    PeerAuditResult(PeerAuditResult),
    SetAuthHashResult(SetAuthHashResponse),
    /// Whether a fan-out message has been seen before.
    FanOutDedupResult { already_seen: bool },
    FanOutMarkResult,
    /// How many carrier addresses were taken over.
    SetCarriersAck { accepted: u64 },
}

/// The error for an answer that is not of the kind asked for: what the service
/// reports, or that the kind is unexpected.
pub open spec fn off_kind(reply: GatewayResponse, unexpected: Seq<char>) -> ErrorView {
    match reply {
        GatewayResponse::Failure { request_id, error_response } => ErrorView::LambdaError(
            error_response.message@,
        ),
        _ => ErrorView::LambdaError(unexpected),
    }
}

fn reject_kind(reply: GatewayResponse, unexpected: &str) -> (r: AntieError)
    ensures
        r@ == off_kind(reply, unexpected@),
{
    match reply {
        GatewayResponse::Failure { request_id: _, error_response } => AntieError::LambdaError(
            error_response.message,
        ),
        _ => AntieError::LambdaError(String::from_str(unexpected)),
    }
}

/// Takes the answer to a witness request.
pub fn parse_witness_response(reply: GatewayResponse) -> (r: Result<WitnessResponse, AntieError>)
    ensures
        match reply {
            GatewayResponse::WitnessResult(w) => r matches Ok(got) && got == *w,
            _ => r matches Err(e) && e@ == off_kind(reply, "Unexpected response type for witness"@),
        },
{
    match reply {
        GatewayResponse::WitnessResult(w) => Ok(*w),
        other => Err(reject_kind(other, "Unexpected response type for witness")),
    }
}

/// Takes the answer to a redeem request.
pub fn parse_redeem_response(reply: GatewayResponse) -> (r: Result<RedeemResponse, AntieError>)
    ensures
        match reply {
            GatewayResponse::RedeemResult(w) => r matches Ok(got) && got == w,
            _ => r matches Err(e) && e@ == off_kind(reply, "Unexpected response type for redeem"@),
        },
{
    match reply {
        GatewayResponse::RedeemResult(w) => Ok(w),
        other => Err(reject_kind(other, "Unexpected response type for redeem")),
    }
}

/// Takes the answer to an acknowledgement. An error that the service reports is
/// an answer too: a refusal.
pub fn parse_ack_response(reply: GatewayResponse) -> (r: Result<AckResponse, AntieError>)
    ensures
        match reply {
            GatewayResponse::AckResult(w) => r matches Ok(got) && got == w,
            GatewayResponse::Failure { request_id, error_response } => r matches Ok(got) && !got.success
                && got.request_id@ == Seq::<char>::empty() && got.error_response == Some(error_response),
            _ => r matches Err(e) && e@ == ErrorView::LambdaError("Unexpected response type for ACK"@),
        },
{
    match reply {
        GatewayResponse::AckResult(w) => Ok(w),
        GatewayResponse::Failure { request_id: _, error_response } => Ok(
            AckResponse {
                request_id: String::new(),
                success: false,
                error_response: Some(error_response),
            },
        ),
        other => Err(reject_kind(other, "Unexpected response type for ACK")),
    }
}

/// Takes the answer to a genesis request. An error that the service reports is
/// given with its code.
pub fn parse_genesis_response(reply: GatewayResponse) -> (r: Result<GenesisResponse, AntieError>)
    ensures
        match reply {
            GatewayResponse::InitGenesisResult(w) => r matches Ok(got) && got == w,
            GatewayResponse::Failure { request_id, error_response } => r matches Err(e) && e@
                == ErrorView::LambdaError(error_response.summary()),
            _ => r matches Err(e) && e@ == ErrorView::LambdaError(
                "Unexpected response type for genesis"@,
            ),
        },
{
    match reply {
        GatewayResponse::InitGenesisResult(w) => Ok(w),
        GatewayResponse::Failure { request_id: _, error_response } => Err(
            AntieError::LambdaError(error_response.summary_text()),
        ),
        other => Err(reject_kind(other, "Unexpected response type for genesis")),
    }
}

/// Takes the answer to a query.
pub fn parse_query_response(reply: GatewayResponse) -> (r: Result<QueryResponse, AntieError>)
    ensures
        match reply {
            GatewayResponse::StateResult(w) => r matches Ok(got) && got == w,
            _ => r matches Err(e) && e@ == off_kind(reply, "Unexpected response type for query"@),
        },
{
    match reply {
        GatewayResponse::StateResult(w) => Ok(w),
        other => Err(reject_kind(other, "Unexpected response type for query")),
    }
}

/// Takes the answer to a status request.
pub fn parse_status_response(reply: GatewayResponse) -> (r: Result<ValidatorStatus, AntieError>)
    ensures
        match reply {
            GatewayResponse::ValidatorStatusResult(w) => r matches Ok(got) && got == w,
            _ => r matches Err(e) && e@ == off_kind(reply, "Unexpected response type for VSP"@),
        },
{
    match reply {
        GatewayResponse::ValidatorStatusResult(w) => Ok(w),
        other => Err(reject_kind(other, "Unexpected response type for VSP")),
    }
}

/// Takes the answer to another validator's audit.
pub fn parse_peer_audit_result(reply: GatewayResponse) -> (r: Result<PeerAuditResult, AntieError>)
    ensures
        match reply {
            GatewayResponse::PeerAuditResult(w) => r matches Ok(got) && got == w,
            _ => r matches Err(e) && e@ == off_kind(
                reply,
                "Unexpected response type for peer_audit_request"@,
            ),
        },
{
    match reply {
        GatewayResponse::PeerAuditResult(w) => Ok(w),
        other => Err(reject_kind(other, "Unexpected response type for peer_audit_request")),
    }
}

/// Takes the answer to a change of the owner proof.
pub fn parse_set_auth_hash_response(reply: GatewayResponse) -> (r: Result<
    SetAuthHashResponse,
    AntieError,
>)
    ensures
        match reply {
            GatewayResponse::SetAuthHashResult(w) => r matches Ok(got) && got == w,
            _ => r matches Err(e) && e@ == off_kind(
                reply,
                "Unexpected response type for set_auth_hash"@,
            ),
        },
{
    match reply {
        GatewayResponse::SetAuthHashResult(w) => Ok(w),
        other => Err(reject_kind(other, "Unexpected response type for set_auth_hash")),
    }
}

/// Takes the answer to whether a fan-out message has been seen before.
pub fn parse_fanout_dedup(reply: GatewayResponse) -> (r: Result<bool, AntieError>)
    ensures
        match reply {
            GatewayResponse::FanOutDedupResult { already_seen } => r matches Ok(got) && got
                == already_seen,
            _ => r matches Err(e) && e@ == off_kind(
                reply,
                "Unexpected response type for fanout_dedup"@,
            ),
        },
{
    match reply {
        GatewayResponse::FanOutDedupResult { already_seen } => Ok(already_seen),
        other => Err(reject_kind(other, "Unexpected response type for fanout_dedup")),
    }
}

/// Takes the answer to the marking of a fan-out message.
pub fn parse_fanout_mark(reply: GatewayResponse) -> (r: Result<(), AntieError>)
    ensures
        match reply {
            GatewayResponse::FanOutMarkResult => r is Ok,
            _ => r matches Err(e) && e@ == off_kind(reply, "Unexpected response for fanout_mark"@),
        },
{
    match reply {
        GatewayResponse::FanOutMarkResult => Ok(()),
        other => Err(reject_kind(other, "Unexpected response for fanout_mark")),
    }
}

/// Takes the answer to the announcement of the carriers: how many were taken
/// over.
pub fn parse_set_carriers_ack(reply: GatewayResponse) -> (r: Result<u64, AntieError>)
    ensures
        match reply {
            GatewayResponse::SetCarriersAck { accepted } => r matches Ok(got) && got == accepted,
            _ => r matches Err(e) && e@ == off_kind(
                reply,
                "Unexpected response type for set_carriers"@,
            ),
        },
{
    match reply {
        GatewayResponse::SetCarriersAck { accepted } => Ok(accepted),
        other => Err(reject_kind(other, "Unexpected response type for set_carriers")),
    }
}

/// The id of a request about a fan-out message: what it asks, then the first
/// eight bytes of the message's id.
pub fn fanout_request_id(label: &str, diffusion_id: &[u8; 32]) -> (r: String)
    ensures
        r@ == label@ + text::hex_text(diffusion_id@.take(8)),
{
    let first = vstd::slice::slice_subrange(diffusion_id.as_slice(), 0, 8);
    assert(first@ == diffusion_id@.take(8));
    labelled(label, text::hex_encode(first).as_str())
}

/// Where the service's own log goes: where the environment says, or beside the
/// directory of its configuration, or here.
pub open spec fn log_path(env: Option<Seq<char>>, config_path: Seq<char>) -> Seq<char> {
    match env {
        Some(p) => p,
        None => match paths::parent_text(config_path) {
            Some(d) => match paths::parent_text(d) {
                Some(e) => paths::joined(paths::joined(e, "logs"@), "lambda.log"@),
                None => "lambda.log"@,
            },
            None => "lambda.log"@,
        },
    }
}

/// Where the service's own log goes. `env` is what the environment says.
pub fn lambda_log_path(env: Option<&str>, config_path: &str) -> (r: String)
    ensures
        r@ == log_path(
            match env {
                Some(p) => Some(p@),
                None => None,
            },
            config_path@,
        ),
{
    match env {
        Some(p) => {
            return String::from_str(p);
        },
        None => {},
    }
    match paths::parent_path(config_path) {
        Some(d) => match paths::parent_path(d.as_str()) {
            Some(e) => paths::join_path(paths::join_path(e.as_str(), "logs").as_str(), "lambda.log"),
            None => String::from_str("lambda.log"),
        },
        None => String::from_str("lambda.log"),
    }
}


/// The length of a frame stands before it in four bytes, the highest first; a length above ten
/// mebibytes is refused, and no other.
pub proof fn law_length_stands_before_the_frame(body: Seq<u8>, a: u8, b: u8, c: u8, d: u8)
    requires
        body.len() < 0x1_0000_0000,
    ensures
        framed(body).len() == body.len() + 4,
        framed(body).skip(4) == body,
        framed(body)[0] as nat * 0x100_0000 + framed(body)[1] as nat * 0x1_0000 + framed(body)[2] as nat
            * 0x100 + framed(body)[3] as nat == body.len(),
        announced(seq![a, b, c, d]) is Err <==> a as nat * 0x100_0000 + b as nat * 0x1_0000 + c as nat * 0x100
            + d as nat > 10 * 1024 * 1024,
        announced(seq![a, b, c, d]) matches Ok(n) ==> n == a as nat * 0x100_0000 + b as nat * 0x1_0000
            + c as nat * 0x100 + d as nat,
        announced(seq![a, b, c, d]) matches Err(e) ==> e == ErrorView::LambdaError("Response too large"@),
{
    let head = text::be_bytes(body.len(), 4);
    text::lemma_be_bytes_len(body.len(), 4);
    text::lemma_byte_ranges();
    text::lemma_be_round_trip(body.len(), 4);
    assert(framed(body).skip(4) =~= body);
    lemma_four_bytes(head);
    lemma_four_bytes(seq![a, b, c, d]);
}

proof fn lemma_four_bytes(s: Seq<u8>)
    requires
        s.len() == 4,
    ensures
        text::be_value(s) == s[0] as nat * 0x100_0000 + s[1] as nat * 0x1_0000 + s[2] as nat * 0x100
            + s[3] as nat,
{
    reveal_with_fuel(text::be_value, 5);
    assert(s.drop_last().last() == s[2]);
    assert(s.drop_last().drop_last().last() == s[1]);
    assert(s.drop_last().drop_last().drop_last().last() == s[0]);
}

/// Certificates are all taken, or the first that is wrong is named.
pub proof fn law_first_wrong_certificate_counts(certs: Seq<Result<Seq<u8>, Seq<char>>>, i: int)
    requires
        0 <= i <= certs.len(),
    ensures
        ca_error_from(certs, i) is None <==> forall|k: int|
            i <= k < certs.len() ==> (#[trigger] certs[k]) is Ok && anchor_fault(certs[k]->Ok_0) is None,
        i < certs.len() && certs[i] is Err ==> ca_error_from(certs, i) == Some(
            ErrorView::ConfigError("TLS CA parse: "@ + certs[i]->Err_0),
        ),
        i < certs.len() && certs[i] is Ok && anchor_fault(certs[i]->Ok_0) is Some ==> ca_error_from(certs, i)
            == Some(ErrorView::ConfigError("TLS CA add: "@ + anchor_fault(certs[i]->Ok_0)->0)),
        i < certs.len() && certs[i] is Ok && anchor_fault(certs[i]->Ok_0) is None ==> ca_error_from(certs, i)
            == ca_error_from(certs, i + 1),
    decreases certs.len() - i,
{
    if i < certs.len() {
        law_first_wrong_certificate_counts(certs, i + 1);
        if ca_error_from(certs, i) is None {
            assert forall|k: int| i <= k < certs.len() implies (#[trigger] certs[k]) is Ok && anchor_fault(
                certs[k]->Ok_0,
            ) is None by {}
        }
    }
}

/// What keeps a client from using TLS: the certificates are looked at first, and then the name.
pub proof fn law_certificates_are_looked_at_first(
    name: Seq<char>,
    path: Option<Seq<char>>,
    ca: Result<Seq<u8>, Seq<char>>,
)
    ensures
        path is None ==> (tls_error(name, path, ca) is None <==> server_name_fault(name) is None),
        path is Some && ca is Err ==> tls_error(name, path, ca) == Some(
            ErrorView::ConfigError("TLS CA cert "@ + path->0 + ": "@ + ca->Err_0),
        ),
        path is Some && ca is Ok ==> (ca_error_from(pem_certs(ca->Ok_0), 0) is Some ==> tls_error(name, path, ca)
            == ca_error_from(pem_certs(ca->Ok_0), 0)),
        tls_error(name, path, ca) is None <==> server_name_fault(name) is None && (path is Some ==> ca is Ok
            && ca_error_from(pem_certs(ca->Ok_0), 0) is None),
        server_name_fault(name) is Some && path is None ==> tls_error(name, path, ca) == Some(
            ErrorView::ConfigError("TLS server name '"@ + name + "': "@ + server_name_fault(name)->0),
        ),
{
}

/// The client trusts the certificates of the file, all of them in their order; without a file
/// it is given none.
pub proof fn law_certificates_are_those_of_the_file(
    certs: Option<Vec<Vec<u8>>>,
    path: Option<Seq<char>>,
    ca: Result<Seq<u8>, Seq<char>>,
)
    requires
        has_certs(certs, path, ca),
    ensures
        certs is Some <==> path is Some,
        certs is Some ==> ca is Ok && certs->0@.len() == pem_certs(ca->Ok_0).len() && forall|i: int|
            0 <= i < certs->0@.len() ==> pem_certs(ca->Ok_0)[i] == Ok::<Seq<u8>, Seq<char>>(
                (#[trigger] certs->0@[i])@,
            ),
{
}

/// An answer of another kind is an error: what the ledger service says is wrong, or else what
/// was expected.
pub proof fn law_failures_speak_for_themselves(reply: GatewayResponse, unexpected: Seq<char>)
    ensures
        reply is Failure ==> off_kind(reply, unexpected) == ErrorView::LambdaError(
            reply->error_response.message@,
        ),
        !(reply is Failure) ==> off_kind(reply, unexpected) == ErrorView::LambdaError(unexpected),
{
}

/// The log of the ledger service is where the environment says, or two directories up in the
/// one for logs, or here.
pub proof fn law_log_is_beside_the_configuration(env: Seq<char>, path: Seq<char>)
    ensures
        log_path(Some(env), path) == env,
        paths::parent_text(path) is None ==> log_path(None, path) == "lambda.log"@,
        paths::parent_text(path) matches Some(d) ==> (paths::parent_text(d) is None ==> log_path(None, path)
            == "lambda.log"@),
        paths::parent_text(path) matches Some(d) ==> (paths::parent_text(d) matches Some(e) ==> log_path(
            None,
            path,
        ) == paths::joined(paths::joined(e, "logs"@), "lambda.log"@)),
{
}


/// An error in short is its code and its message.
pub proof fn law_summary_says_both(e: ErrorInfo)
    ensures
        text::starts_with(e.summary(), e.code@ + seq![':', ' ']),
        text::ends_with(e.summary(), seq![' '] + e.message@),
        e.summary().len() == e.code@.len() + 2 + e.message@.len(),
{
    reveal_strlit(": ");
    assert(": "@ =~= seq![':', ' ']);
    text::lemma_put_together(Seq::empty(), e.code@ + seq![':', ' '], e.message@);
    assert(e.summary() =~= (e.code@ + seq![':']) + (seq![' '] + e.message@));
    text::lemma_put_together(e.code@ + seq![':'], seq![' '] + e.message@, Seq::empty());
}

} // verus!
