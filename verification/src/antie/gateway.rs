//! The gateway: it takes mails in, decides what becomes of each, and answers.
use vstd::prelude::*;
use crate::antie::carrier::{IncomingMessage, MaildirCarrier, SmtpCarrier};
use crate::antie::config::{AntieConfig, LambdaConfig};
use crate::antie::decrypt;
use crate::antie::decrypt::EnvelopeDecryptor;
use crate::antie::email;
use crate::antie::email::{build_response, parse_email, parse_email_outcome, AntieEmail, ParseOutcome, UmpEnvelope};
use crate::antie::error::{labelled, AntieError, ErrorView};
use crate::antie::lambda_client::{LambdaClient, LambdaMode};
use crate::antie::lambda_client;
use crate::antie::limiter;
use crate::antie::limiter::WalletRateLimiter;
use crate::antie::payload;
use crate::antie::response;
use crate::antie::response::ResponsePayload;
use crate::antie::skip_list;
use crate::antie::skip_list::SkipList;
use crate::antie::stats;
use crate::antie::stats::{bump, AntieStats};
use crate::antie::uncle_sink;
use crate::antie::uncle_sink::UncleSink;
use crate::antie::witness::{fill_in, or_else, same_request, WitnessRequest};
use crate::paths;
use crate::text;

verus! {

/// The largest mail that is taken in, in bytes.
pub const MAX_MESSAGE_BYTES: usize = 8_388_608;

/// The pause between two witness requests of a wallet, in milliseconds, where none is
/// configured.
pub const DEFAULT_COOLDOWN_MS: u64 = 2_000;

/// The number of remembered wallets above which old ones are forgotten.
pub const EVICTION_SIZE: usize = 100;

// ---------------------------------------------------------------------------
// Kinds of requests
// ---------------------------------------------------------------------------

/// What a request is handled as.
#[derive(Debug, Clone, Copy, PartialEq, Eq, Structural)]
pub enum Route {
    Witness,
    Redeem,
    Ack,
    Query,
    ValidatorStatus,
    GenesisDev,
    VbcSignRequest,
    VbcSignCommit,
    ScarHeal,
    SetAuthHash,
    PeerAuditRequest,
    PeerAuditResponse,
    FanoutRelay,
    Unknown,
}

/// What a request of a kind is handled as.
pub open spec fn route_of(kind: Seq<char>) -> Route {
    if kind == "witness"@ {
        Route::Witness
    } else if kind == "redeem"@ {
        Route::Redeem
    } else if kind == "ack"@ {
        Route::Ack
    } else if kind == "query"@ || kind == "query_state"@ {
        Route::Query
    } else if kind == "validator_status"@ {
        Route::ValidatorStatus
    } else if kind == "init_genesis_dev"@ {
        Route::GenesisDev
    } else if kind == "vbc_sign_request"@ {
        Route::VbcSignRequest
    } else if kind == "vbc_sign_commit"@ {
        Route::VbcSignCommit
    } else if kind == "scar_heal"@ {
        Route::ScarHeal
    } else if kind == "set_auth_hash"@ {
        Route::SetAuthHash
    } else if kind == "peer_audit_request"@ {
        Route::PeerAuditRequest
    } else if kind == "peer_audit_response"@ {
        Route::PeerAuditResponse
    } else if kind == "fanout_relay"@ {
        Route::FanoutRelay
    } else {
        Route::Unknown
    }
}

/// The kinds of requests that are handled as given.
pub open spec fn kinds_of(r: Route) -> Set<Seq<char>> {
    match r {
        Route::Witness => set!["witness"@],
        Route::Redeem => set!["redeem"@],
        Route::Ack => set!["ack"@],
        Route::Query => set!["query"@, "query_state"@],
        Route::ValidatorStatus => set!["validator_status"@],
        Route::GenesisDev => set!["init_genesis_dev"@],
        Route::VbcSignRequest => set!["vbc_sign_request"@],
        Route::VbcSignCommit => set!["vbc_sign_commit"@],
        Route::ScarHeal => set!["scar_heal"@],
        Route::SetAuthHash => set!["set_auth_hash"@],
        Route::PeerAuditRequest => set!["peer_audit_request"@],
        Route::PeerAuditResponse => set!["peer_audit_response"@],
        Route::FanoutRelay => set!["fanout_relay"@],
        Route::Unknown => Set::empty(),
    }
}

/// What tells the names of the kinds of requests apart.
proof fn lemma_kind_names()
    ensures
        "witness"@.len() == 7,
        "redeem"@.len() == 6,
        "ack"@.len() == 3,
        "query"@.len() == 5,
        "query_state"@.len() == 11,
        "validator_status"@.len() == 16,
        "init_genesis_dev"@.len() == 16,
        "vbc_sign_request"@.len() == 16,
        "vbc_sign_commit"@.len() == 15,
        "scar_heal"@.len() == 9,
        "set_auth_hash"@.len() == 13,
        "peer_audit_request"@.len() == 18,
        "peer_audit_response"@.len() == 19,
        "fanout_relay"@.len() == 12,
        "validator_status"@[1] == 'a',
        "init_genesis_dev"@[1] == 'n',
        "vbc_sign_request"@[1] == 'b',
{
    reveal_strlit("witness");
    reveal_strlit("redeem");
    reveal_strlit("ack");
    reveal_strlit("query");
    reveal_strlit("query_state");
    reveal_strlit("validator_status");
    reveal_strlit("init_genesis_dev");
    reveal_strlit("vbc_sign_request");
    reveal_strlit("vbc_sign_commit");
    reveal_strlit("scar_heal");
    reveal_strlit("set_auth_hash");
    reveal_strlit("peer_audit_request");
    reveal_strlit("peer_audit_response");
    reveal_strlit("fanout_relay");
}

/// The kinds of requests have different names.
proof fn lemma_kinds_differ(a: Route, b: Route, kind: Seq<char>)
    requires
        kinds_of(a).contains(kind),
        kinds_of(b).contains(kind),
    ensures
        a == b,
{
    lemma_kind_names();
}

/// Each kind of request has its own handler, and each handler its own kinds: a request is handled
/// as given exactly if its kind is among those, and as unknown exactly if it is among none.
pub proof fn law_each_kind_has_its_handler(kind: Seq<char>, r: Route)
    ensures
        r != Route::Unknown ==> (route_of(kind) == r <==> kinds_of(r).contains(kind)),
        route_of(kind) == Route::Unknown <==> forall|other: Route| !(#[trigger] kinds_of(other)).contains(kind),
{
    let own = route_of(kind);
    if own != Route::Unknown {
        assert(kinds_of(own).contains(kind));
        if kinds_of(r).contains(kind) {
            lemma_kinds_differ(own, r, kind);
        }
    } else {
        assert forall|other: Route| !(#[trigger] kinds_of(other)).contains(kind) by {}
    }
}

/// Requests come in an envelope, but for those that validators send each other: the two audits
/// and the fan-out.
pub proof fn law_envelopes_are_for_clients(kind: Seq<char>)
    ensures
        email::in_envelope(kind) <==> route_of(kind) != Route::PeerAuditRequest && route_of(kind)
            != Route::PeerAuditResponse && route_of(kind) != Route::FanoutRelay,
{
    law_each_kind_has_its_handler(kind, Route::PeerAuditRequest);
    law_each_kind_has_its_handler(kind, Route::PeerAuditResponse);
    law_each_kind_has_its_handler(kind, Route::FanoutRelay);
    assert(kinds_of(Route::PeerAuditRequest).contains(kind) <==> kind == "peer_audit_request"@);
    assert(kinds_of(Route::PeerAuditResponse).contains(kind) <==> kind == "peer_audit_response"@);
    assert(kinds_of(Route::FanoutRelay).contains(kind) <==> kind == "fanout_relay"@);
}

/// What a request of a kind is handled as.
pub fn route(message_type: &str) -> (r: Route)
    ensures
        r == route_of(message_type@),
        message_type@ == "witness"@ <==> r == Route::Witness,
        message_type@ == "redeem"@ <==> r == Route::Redeem,
        message_type@ == "ack"@ <==> r == Route::Ack,
        message_type@ == "validator_status"@ <==> r == Route::ValidatorStatus,
        message_type@ == "init_genesis_dev"@ <==> r == Route::GenesisDev,
        message_type@ == "vbc_sign_request"@ <==> r == Route::VbcSignRequest,
        message_type@ == "vbc_sign_commit"@ <==> r == Route::VbcSignCommit,
        message_type@ == "scar_heal"@ <==> r == Route::ScarHeal,
        message_type@ == "set_auth_hash"@ <==> r == Route::SetAuthHash,
        message_type@ == "peer_audit_request"@ <==> r == Route::PeerAuditRequest,
        message_type@ == "peer_audit_response"@ <==> r == Route::PeerAuditResponse,
        message_type@ == "fanout_relay"@ <==> r == Route::FanoutRelay,
        message_type@ == "query"@ || message_type@ == "query_state"@ <==> r == Route::Query,
{
    proof {
        let own = route_of(message_type@);
        law_each_kind_has_its_handler(message_type@, own);
        lemma_kind_names();
    }
    if text::same_text(message_type, "witness") {
        Route::Witness
    } else if text::same_text(message_type, "redeem") {
        Route::Redeem
    } else if text::same_text(message_type, "ack") {
        Route::Ack
    } else if text::same_text(message_type, "query") || text::same_text(message_type, "query_state") {
        Route::Query
    } else if text::same_text(message_type, "validator_status") {
        Route::ValidatorStatus
    } else if text::same_text(message_type, "init_genesis_dev") {
        Route::GenesisDev
    } else if text::same_text(message_type, "vbc_sign_request") {
        Route::VbcSignRequest
    } else if text::same_text(message_type, "vbc_sign_commit") {
        Route::VbcSignCommit
    } else if text::same_text(message_type, "scar_heal") {
        Route::ScarHeal
    } else if text::same_text(message_type, "set_auth_hash") {
        Route::SetAuthHash
    } else if text::same_text(message_type, "peer_audit_request") {
        Route::PeerAuditRequest
    } else if text::same_text(message_type, "peer_audit_response") {
        Route::PeerAuditResponse
    } else if text::same_text(message_type, "fanout_relay") {
        Route::FanoutRelay
    } else {
        Route::Unknown
    }
}

/// A text for the log: line ends are written out.
pub open spec fn log_text(s: Seq<char>) -> Seq<char> {
    text::replaced(text::replaced(s, '\n', "\\n"@), '\r', "\\r"@)
}

/// A text for the log.
pub fn sanitize_for_log(s: &str) -> (r: String)
    ensures
        r@ == log_text(s@),
{
    let a = text::replace_char(s, '\n', "\\n");
    text::replace_char(a.as_str(), '\r', "\\r")
}

/// A text in the log stays on its line, whatever it holds.
pub proof fn law_log_text_is_one_line(s: Seq<char>)
    ensures
        !log_text(s).contains('\n'),
        !log_text(s).contains('\r'),
{
    reveal_strlit("\\n");
    reveal_strlit("\\r");
    let a = text::replaced(s, '\n', "\\n"@);
    text::lemma_replaced(s, '\n', "\\n"@, '\n');
    text::lemma_replaced(a, '\r', "\\r"@, '\r');
    text::lemma_replaced(a, '\r', "\\r"@, '\n');
}

/// The answer to a request of an unknown kind.
pub fn unknown_type(email: &AntieEmail) -> (r: ResponsePayload)
    ensures
        r.says(
            false,
            email.request_id@,
            Some("Unknown message type: "@ + email.message_type@),
            Some("UNKNOWN_TYPE"@),
        ),
{
    ResponsePayload::bare(
        false,
        email.request_id.as_str(),
        Some(labelled("Unknown message type: ", email.message_type.as_str())),
        Some("UNKNOWN_TYPE"),
    )
}

/// The answer that is sent, given what handling the request gave: an error is answered too.
pub fn respond(email: &AntieEmail, handled: Result<ResponsePayload, AntieError>) -> (r: ResponsePayload)
    ensures
        match handled {
            Ok(p) => r == p,
            Err(e) => r.says(false, email.request_id@, Some(e@.text()), Some("INTERNAL_ERROR"@)),
        },
{
    match handled {
        Ok(p) => p,
        Err(e) => ResponsePayload::bare(
            false,
            email.request_id.as_str(),
            Some(e.to_text()),
            Some("INTERNAL_ERROR"),
        ),
    }
}

// ---------------------------------------------------------------------------
// Load
// ---------------------------------------------------------------------------

/// Where the ledger service tells its load.
pub open spec fn stats_address(port: u16, token: Option<Seq<char>>) -> Seq<char> {
    let base = "http://127.0.0.1:"@ + text::dec(port as nat) + "/stats"@;
    match token {
        Some(t) => base + "?token="@ + t,
        None => base,
    }
}

/// Where the ledger service tells its load.
pub fn stats_url(admin_port: u16, admin_token: &Option<String>) -> (r: String)
    ensures
        r@ == stats_address(admin_port, payload::opt(*admin_token)),
{
    let mut url = String::from_str("http://127.0.0.1:");
    text::push_dec(&mut url, admin_port as u64);
    url.append("/stats");
    match admin_token {
        Some(t) => {
            url.append("?token=");
            url.append(t.as_str());
        },
        None => {},
    }
    url
}

/// The average time for a witness that a text reports: the numeral between its name and the
/// next comma or brace.
pub open spec fn reported_average(s: Seq<char>) -> Option<nat> {
    match text::first_from(s, "\"avg_witness_ms\":"@, 0) {
        Some(p) => {
            let after = s.skip(p + "\"avg_witness_ms\":"@.len());
            match text::first_of(after, ',', '}') {
                Some(e) => text::numeral(text::trim(after.take(e)), u64::MAX as nat),
                None => None,
            }
        },
        None => None,
    }
}

/// The average time for a witness that a text reports.
pub fn read_average(s: &str) -> (r: Option<u64>)
    ensures
        match reported_average(s@) {
            Some(n) => r == Some(n as u64) && n <= u64::MAX,
            None => r is None,
        },
{
    let v = text::chars_of(s);
    let key = text::chars_of("\"avg_witness_ms\":");
    let p = match text::find_first(&v, &key, 0) {
        Some(p) => p,
        None => {
            return None;
        },
    };
    let len: usize = v.len();
    assert(p + key@.len() <= len);
    let start: usize = p + key.len();
    let ghost after = v@.skip(start as int);
    let e = match text::find_first_of(&v, start, ',', '}') {
        Some(e) => e,
        None => {
            return None;
        },
    };
    assert(v@.subrange(start as int, start + e) == after.take(e as int));
    let (from, to) = text::trim_range(&v, start, start + e);
    text::read_numeral(&v, from, to, u64::MAX)
}

/// Whether the wait is too long with `depth` requests in the queue: at the average time each,
/// they take longer than the limit. There is no limit if it is zero.
pub open spec fn too_busy(depth: nat, average_ms: u64, threshold_ms: u64) -> bool {
    threshold_ms != 0 && depth * average_ms > threshold_ms
}

// ---------------------------------------------------------------------------
// Starting
// ---------------------------------------------------------------------------

/// The carrier that answers go out by.
pub enum Sender {
    Smtp(SmtpCarrier),
    Maildir(MaildirCarrier),
}

/// Whether answers go out as configured: by a mail server if there is one, or else by the
/// mail directories.
pub open spec fn is_sender(s: Sender, config: AntieConfig) -> bool {
    match config.outbound.smtp {
        Some(m) => s matches Sender::Smtp(c) && c.server@ == m.server@ && c.port == m.port
            && c.from_address@ == m.from_address@,
        None => config.carriers.maildir matches Some(m) && (s matches Sender::Maildir(c)
            && c.inbox.at() == m.inbox@ && c.outbox.at() == m.outbox@),
    }
}

/// Chooses the carrier that answers go out by.
pub fn choose_sender(config: &AntieConfig) -> (r: Result<Sender, AntieError>)
    ensures
        r is Ok <==> config.outbound.smtp is Some || config.carriers.maildir is Some,
        r matches Ok(s) ==> is_sender(s, *config),
        r matches Err(e) ==> e@ == ErrorView::ConfigError(
            "No outbound carrier configured (need outbound.smtp or carriers.maildir)"@,
        ),
{
    match &config.outbound.smtp {
        Some(s) => Ok(
            Sender::Smtp(
                SmtpCarrier::new(
                    s.server.clone(),
                    s.port,
                    None,
                    None,
                    s.use_tls,
                    s.from_address.clone(),
                ),
            ),
        ),
        None => match &config.carriers.maildir {
            Some(m) => Ok(Sender::Maildir(MaildirCarrier::new(m.inbox.as_str(), m.outbox.as_str()))),
            None => Err(
                AntieError::ConfigError(
                    String::from_str(
                        "No outbound carrier configured (need outbound.smtp or carriers.maildir)",
                    ),
                ),
            ),
        },
    }
}

/// Where the validator's core is: where the configuration says, or the environment, or
/// beside the core's old place, or here.
pub open spec fn core_place(config: AntieConfig, env: Option<Seq<char>>) -> Seq<char> {
    match config.core.avm_elf_path {
        Some(p) => p@,
        None => match env {
            Some(p) => p,
            None => match config.core.core_bin_path {
                Some(b) => match paths::parent_text(b@) {
                    Some(d) => paths::joined(d, "axiom-core.elf"@),
                    None => "./axiom-core.elf"@,
                },
                None => "./axiom-core.elf"@,
            },
        },
    }
}

/// Where the validator's core is. `env` is what the environment says.
pub fn core_path(config: &AntieConfig, env: Option<&str>) -> (r: String)
    ensures
        r@ == core_place(
            *config,
            match env {
                Some(p) => Some(p@),
                None => None,
            },
        ),
{
    if let Some(p) = &config.core.avm_elf_path {
        return p.clone();
    }
    if let Some(p) = env {
        return String::from_str(p);
    }
    if let Some(b) = &config.core.core_bin_path {
        if let Some(d) = paths::parent_path(b.as_str()) {
            return paths::join_path(d.as_str(), "axiom-core.elf");
        }
    }
    String::from_str("./axiom-core.elf")
}

/// What loading the validator's core gave.
pub enum CoreFound {
    /// There is none.
    Missing,
    /// It could not be loaded.
    Broken(String),
    /// Its fingerprint.
    Loaded([u8; 32]),
}

/// The error for a core that is not there.
pub open spec fn missing_core(path: Seq<char>) -> ErrorView {
    ErrorView::ConfigError(
        "No AVM ELF found at "@ + paths::path_debug_text(path)
            + ". Set avm_elf_path in config, set AXIOM_AVM_ELF env var, or place axiom-core.elf there. Run build-zkvm.sh to build it."@,
    )
}

/// Checks that the core is there.
fn check_core(path: &str, core: CoreFound) -> (r: Result<[u8; 32], AntieError>)
    ensures
        match core {
            CoreFound::Missing => r matches Err(e) && e@ == missing_core(path@),
            CoreFound::Broken(m) => r matches Err(e) && e@ == ErrorView::ConfigError(
                "Failed to load AVM ELF: "@ + m@,
            ),
            CoreFound::Loaded(f) => r == Ok::<[u8; 32], AntieError>(f),
        },
{
    match core {
        CoreFound::Missing => {
            let mut m = String::from_str("No AVM ELF found at ");
            m.append(paths::path_debug_string(path).as_str());
            m.append(
                ". Set avm_elf_path in config, set AXIOM_AVM_ELF env var, or place axiom-core.elf there. Run build-zkvm.sh to build it.",
            );
            Err(AntieError::ConfigError(m))
        },
        CoreFound::Broken(m) => Err(
            AntieError::ConfigError(labelled("Failed to load AVM ELF: ", m.as_str())),
        ),
        CoreFound::Loaded(f) => Ok(f),
    }
}

/// Whether a client reaches the ledger service as configured. `ca` is what reading the file of
/// certificates gave.
pub open spec fn is_client(
    c: LambdaClient,
    config: LambdaConfig,
    ca: Result<Seq<u8>, Seq<char>>,
) -> bool {
    match config {
        LambdaConfig::Tcp { address, timeout_secs, tls_server_name, tls_ca_cert_path } => c.spec_mode() matches LambdaMode::Tcp {
            address: a,
            timeout_secs: t,
            server_name,
            ca_certs,
        } && a@ == address@ && t == timeout_secs && payload::opt(server_name) == payload::opt(
            tls_server_name,
        ) && (if tls_server_name is Some {
            lambda_client::has_certs(ca_certs, payload::opt(tls_ca_cert_path), ca)
        } else {
            ca_certs is None
        }),
        LambdaConfig::Subprocess { binary_path, config_path } => c.spec_mode() matches LambdaMode::Subprocess {
            binary_path: b,
            config_path: p,
        } && b@ == binary_path@ && p@ == config_path@,
    }
}

/// What is wrong with how the ledger service is to be reached, if anything.
pub open spec fn client_error(config: LambdaConfig, ca: Result<Seq<u8>, Seq<char>>) -> Option<ErrorView> {
    match config {
        LambdaConfig::Tcp { address, timeout_secs, tls_server_name, tls_ca_cert_path } => match tls_server_name {
            Some(n) => lambda_client::tls_error(n@, payload::opt(tls_ca_cert_path), ca),
            None => None,
        },
        LambdaConfig::Subprocess { binary_path, config_path } => None,
    }
}

/// The client that reaches the ledger service as configured. `ca` is what reading the file of
/// certificates gave, if one is configured.
pub fn client_for(config: &LambdaConfig, ca: Result<Vec<u8>, String>) -> (r: Result<
    LambdaClient,
    AntieError,
>)
    ensures
        match client_error(*config, payload::file_view(ca)) {
            Some(e) => r matches Err(got) && got@ == e,
            None => r matches Ok(c) && is_client(c, *config, payload::file_view(ca)),
        },
{
    match config {
        LambdaConfig::Tcp { address, timeout_secs, tls_server_name, tls_ca_cert_path } => {
            match tls_server_name {
                Some(n) => LambdaClient::new_tcp_tls(
                    address.as_str(),
                    *timeout_secs,
                    n.as_str(),
                    as_opt(tls_ca_cert_path),
                    ca,
                ),
                None => Ok(LambdaClient::new_tcp(address.as_str(), *timeout_secs)),
            }
        },
        LambdaConfig::Subprocess { binary_path, config_path } => Ok(
            LambdaClient::new_subprocess(binary_path.clone(), config_path.clone()),
        ),
    }
}

/// The gateway.
pub struct Gateway {
    pub config: AntieConfig,
    /// The receivers whose cheques a sibling carrier delivers.
    pub skip_list: Option<SkipList>,
    /// The carrier that answers go out by.
    pub sender: Sender,
    /// Where copies of answers go.
    pub uncle_sink: Option<UncleSink>,
    /// How the ledger service is reached.
    pub lambda: LambdaClient,
    pub running: bool,
    /// The fan-out messages that have been accepted.
    pub fanout_seen: Vec<[u8; 32]>,
    pub stats: AntieStats,
    pub wallet_rate_limiter: WalletRateLimiter,
    /// The means to open sealed requests.
    pub envelope_decryptor: Option<EnvelopeDecryptor>,
}

/// The error that keeps a gateway from starting, if there is one. `env` is what the
/// environment says of the core, `ca` what reading the file of certificates gave, and `key`
/// what reading the key file gave.
pub open spec fn start_error(
    config: AntieConfig,
    env: Option<Seq<char>>,
    core: CoreFound,
    ca: Result<Seq<u8>, Seq<char>>,
    key: Result<Seq<u8>, Seq<char>>,
) -> Option<ErrorView> {
    if !config.carriers.takes_mail() {
        Some(
            ErrorView::ConfigError(
                "at least one email carrier (maildir, imap, or pop3) must be configured — tcp alone is not valid; email is required for fan-out"@,
            ),
        )
    } else if config.outbound.smtp is None && config.carriers.maildir is None {
        Some(
            ErrorView::ConfigError(
                "No outbound carrier configured (need outbound.smtp or carriers.maildir)"@,
            ),
        )
    } else if core is Missing {
        Some(missing_core(core_place(config, env)))
    } else if let CoreFound::Broken(m) = core {
        Some(ErrorView::ConfigError("Failed to load AVM ELF: "@ + m@))
    } else if client_error(config.lambda, ca) is Some {
        client_error(config.lambda, ca)
    } else {
        match config.validator.private_key_path {
            Some(path) => match key {
                Err(e) => Some(ErrorView::ConfigError(decrypt::unreadable_key(path@, e))),
                Ok(b) => if b.len() == 32 {
                    None
                } else {
                    Some(ErrorView::ConfigError(decrypt::wrong_key_length(path@, b.len())))
                },
            },
            None => None,
        }
    }
}

/// Whether a gateway is newly started with the given configuration.
pub open spec fn is_started(
    g: Gateway,
    config: AntieConfig,
    skip_list_content: Option<Seq<char>>,
    core: CoreFound,
    ca: Result<Seq<u8>, Seq<char>>,
    key: Result<Seq<u8>, Seq<char>>,
) -> bool {
    &&& g.config == config
    &&& match (config.skip_list_path, config.skipped_dir_path) {
        (Some(a), Some(b)) => g.skip_list matches Some(l) && l.source() == a@ && l.target() == b@
            && l.ids() == (match skip_list_content {
            Some(c) => skip_list::listed(c),
            None => Set::<Seq<char>>::empty(),
        }),
        _ => g.skip_list is None,
    }
    &&& is_sender(g.sender, config)
    &&& match config.outbound.uncle {
        Some(u) => g.uncle_sink matches Some(s) && s.dir() == u.outbox_path@,
        None => g.uncle_sink is None,
    }
    &&& is_client(g.lambda, config.lambda, ca)
    &&& g.running
    &&& g.fanout_seen@.len() == 0
    &&& g.stats.counts_nothing()
    &&& core matches CoreFound::Loaded(f) && g.stats.core_version@ == text::hex_text(f@.take(16))
    &&& g.wallet_rate_limiter.wf()
    &&& g.wallet_rate_limiter.known() == 0
    &&& g.wallet_rate_limiter.pause() == (match config.wallet_witness_cooldown_ms {
        Some(ms) => ms,
        None => DEFAULT_COOLDOWN_MS,
    })
    &&& match (config.validator.private_key_path, key) {
        (Some(_), Ok(seed)) => g.envelope_decryptor matches Some(d) && d.recipient()
            == decrypt::ed25519_public(seed) && d.secret() == decrypt::clamped(
            decrypt::ed25519_scalar(seed),
        ),
        _ => g.envelope_decryptor is None,
    }
}

/// What has to be done once the gateway starts.
pub struct Startup {
    /// The id of the request that makes the carriers known.
    pub request_id: String,
    /// The addresses to make known.
    pub carrier_uris: Vec<String>,
    /// Where the ledger service's load is asked for, if requests may be turned away.
    pub stats_url: Option<String>,
}

fn as_opt(o: &Option<String>) -> (r: Option<&str>)
    ensures
        payload::opt_str(r) == payload::opt(*o),
{
    match o {
        Some(s) => Some(s.as_str()),
        None => None,
    }
}

impl Gateway {
    /// The ids of the fan-out messages that have been accepted.
    pub open spec fn seen(self) -> Set<Seq<u8>> {
        Set::new(|id: Seq<u8>| exists|i: int| 0 <= i < self.fanout_seen@.len() && #[trigger] self.fanout_seen@[i]@ == id)
    }

    /// The gateway with other counters.
    pub open spec fn counting(self, stats: AntieStats) -> Gateway {
        Gateway { stats, ..self }
    }

    /// Starts a gateway, or says what keeps it from starting. `env` is what the environment
    /// says of the core, `skip_list_content` what the skip-list file holds, `core` what loading
    /// the core from [`core_path`] gave, `ca` what reading the file of certificates for the
    /// ledger service gave, and `key` what reading the key file gave. A file that is not
    /// configured is not looked at.
    pub fn new(
        config: AntieConfig,
        env: Option<&str>,
        skip_list_content: Option<&str>,
        core: CoreFound,
        ca: Result<Vec<u8>, String>,
        key: Result<Vec<u8>, String>,
    ) -> (r: Result<Gateway, AntieError>)
        ensures
            match start_error(config, payload::opt_str(env), core, payload::file_view(ca), payload::file_view(key)) {
                Some(e) => r matches Err(got) && got@ == e,
                None => r matches Ok(g) && is_started(
                    g,
                    config,
                    payload::opt_str(skip_list_content),
                    core,
                    payload::file_view(ca),
                    payload::file_view(key),
                ),
            },
    {
        match config.carriers.validate() {
            Err(e) => {
                return Err(e);
            },
            Ok(_) => {},
        }
        let skip_list = SkipList::maybe_open(
            as_opt(&config.skip_list_path),
            as_opt(&config.skipped_dir_path),
            skip_list_content,
        );
        let sender = match choose_sender(&config) {
            Err(e) => {
                return Err(e);
            },
            Ok(s) => s,
        };
        let path = core_path(&config, env);
        let fingerprint: [u8; 32] = match check_core(path.as_str(), core) {
            Err(e) => {
                return Err(e);
            },
            Ok(f) => f,
        };
        let lambda = match client_for(&config.lambda, ca) {
            Err(e) => {
                return Err(e);
            },
            Ok(c) => c,
        };
        let envelope_decryptor = match &config.validator.private_key_path {
            Some(p) => match EnvelopeDecryptor::from_key_file(p.as_str(), key) {
                Err(e) => {
                    return Err(e);
                },
                Ok(d) => Some(d),
            },
            None => None,
        };
        let uncle_sink = match &config.outbound.uncle {
            Some(u) => Some(UncleSink::new(u.outbox_path.clone())),
            None => None,
        };
        let cooldown_ms: u64 = match config.wallet_witness_cooldown_ms {
            Some(ms) => ms,
            None => DEFAULT_COOLDOWN_MS,
        };
        let mut stats = AntieStats::new();
        let head = vstd::slice::slice_subrange(fingerprint.as_slice(), 0, 16);
        assert(head@ == fingerprint@.take(16));
        stats.core_version = text::hex_encode(head);
        Ok(
            Gateway {
                config,
                skip_list,
                sender,
                uncle_sink,
                lambda,
                running: true,
                fanout_seen: Vec::new(),
                stats,
                wallet_rate_limiter: WalletRateLimiter::new(cooldown_ms),
                envelope_decryptor,
            },
        )
    }

    /// What has to be done once the gateway starts. The carriers in use are shown from now on.
    pub fn run(&mut self, pid: u32) -> (r: Result<Startup, AntieError>)
        ensures
            r is Ok <==> old(self).config.carriers.takes_mail(),
            r matches Err(e) ==> *final(self) == *old(self) && e@ == ErrorView::ConfigError(
                "at least one email carrier (maildir, imap, or pop3) must be configured — tcp alone is not valid; email is required for fan-out"@,
            ),
            r matches Ok(s) ==> {
                let g = *old(self);
                &&& s.request_id@ == "set-carriers-startup-"@ + text::dec(pid as nat)
                &&& text::views(s.carrier_uris@) == g.config.carriers.uris(g.config.identity.email@)
                &&& payload::opt(s.stats_url) == (if g.config.performance.busy_threshold_ms > 0 {
                    Some(
                        stats_address(
                            g.config.performance.lambda_admin_port,
                            payload::opt(g.config.performance.lambda_admin_token),
                        ),
                    )
                } else {
                    None
                })
                &&& final(self).stats.active_carriers@ == text::join(g.config.carriers.names(), ","@)
                &&& *final(self) == g.counting(
                    (AntieStats { active_carriers: final(self).stats.active_carriers, ..g.stats }),
                )
            },
    {
        match self.config.carriers.validate() {
            Err(e) => {
                return Err(e);
            },
            Ok(_) => {},
        }
        let mut request_id = String::from_str("set-carriers-startup-");
        text::push_dec(&mut request_id, pid as u64);
        let carrier_uris = self.config.carriers.to_uri_list(self.config.identity.email.as_str());
        let stats_url = if self.config.performance.busy_threshold_ms > 0 {
            Some(
                stats_url(
                    self.config.performance.lambda_admin_port,
                    &self.config.performance.lambda_admin_token,
                ),
            )
        } else {
            None
        };
        self.stats.active_carriers = self.config.carriers.active_names();
        Ok(Startup { request_id, carrier_uris, stats_url })
    }

    /// Stops the gateway.
    pub fn stop(&mut self)
        ensures
            *final(self) == (Gateway { running: false, ..*old(self) }),
    {
        self.running = false;
    }

    /// Takes over the average that the ledger service reports, if it reports one.
    pub fn poll_lambda_stats(&mut self, reply: &str)
        ensures
            *final(self) == old(self).counting(
                (match reported_average(reply@) {
                    Some(n) => AntieStats { avg_witness_ms: n as u64, ..old(self).stats },
                    None => old(self).stats,
                }),
            ),
    {
        if let Some(n) = read_average(reply) {
            self.stats.avg_witness_ms = n;
        }
    }

    /// Takes over how many cheques wait for a sibling carrier.
    pub fn count_skipped(&mut self, names: &Vec<String>)
        ensures
            *final(self) == old(self).counting(
                (match old(self).skip_list {
                    Some(_) => AntieStats {
                        skipped_dir_count: skip_list::claimable(text::views(names@)) as u64,
                        ..old(self).stats
                    },
                    None => old(self).stats,
                }),
            ),
    {
        if let Some(l) = &self.skip_list {
            self.stats.skipped_dir_count = l.skipped_dir_count(names) as u64;
        }
    }

    /// Whether a request is turned away with `queue_depth` others in the queue.
    pub fn should_reject_busy(&self, queue_depth: usize) -> (r: bool)
        ensures
            r == too_busy(
                queue_depth as nat,
                self.stats.avg_witness_ms,
                self.config.performance.busy_threshold_ms,
            ),
    {
        let threshold = self.config.performance.busy_threshold_ms;
        let avg_ms = self.stats.avg_witness_ms;
        if threshold == 0 {
            return false;
        }
        proof {
            assert(queue_depth * avg_ms <= 0xffff_ffff_ffff_ffff * 0xffff_ffff_ffff_ffff) by (nonlinear_arith)
                requires
                    queue_depth <= 0xffff_ffff_ffff_ffff,
                    avg_ms <= 0xffff_ffff_ffff_ffff,
            ;
        }
        (queue_depth as u128) * (avg_ms as u128) > threshold as u128
    }

    /// Takes up the mail number `idx` of `total`, and says whether it is turned away because
    /// those behind it make the wait too long.
    pub fn take_up(&mut self, idx: usize, total: usize) -> (r: bool)
        requires
            idx < total,
        ensures
            r == too_busy(
                (total - idx - 1) as nat,
                old(self).stats.avg_witness_ms,
                old(self).config.performance.busy_threshold_ms,
            ),
            *final(self) == old(self).counting(taken_up(old(self).stats, r)),
    {
        self.stats.messages_received = bump(self.stats.messages_received);
        let busy = self.should_reject_busy(total - (idx + 1));
        if busy {
            self.stats.busy_rejections = bump(self.stats.busy_rejections);
        }
        busy
    }

    /// Counts a mail that was dealt with, and says how the carrier is to mark it.
    pub fn finish(&mut self, outcome: Result<(), AntieError>) -> (r: Mark)
        ensures
            *final(self) == old(self).counting(finished(old(self).stats, outcome is Err)),
            match outcome {
                Ok(_) => r is Processed,
                Err(e) => r matches Mark::Failed(m) && m@ == e@.text(),
            },
    {
        match outcome {
            Ok(_) => {
                self.stats.messages_processed = bump(self.stats.messages_processed);
                Mark::Processed
            },
            Err(e) => {
                self.stats.messages_failed = bump(self.stats.messages_failed);
                Mark::Failed(e.to_text())
            },
        }
    }

    /// The answer to a mail that is turned away; `None` if the mail cannot be read. `envelope`
    /// is what its body is as an envelope.
    pub fn send_busy_rejection(&self, raw: &[u8], envelope: Option<UmpEnvelope>) -> (r: Option<
        (AntieEmail, ResponsePayload),
    >)
        ensures
            exists|e: Result<AntieEmail, AntieError>, o: Result<ParseOutcome, AntieError>| #[trigger]
                email::flattened(e, o) && email::mail_outcome(o, raw@, payload::opt(envelope), None)
                    && match e {
                    Ok(m) => r matches Some(got) && got.0 == m && got.1.says(
                        false,
                        m.request_id@,
                        Some(
                            "E_VALIDATOR_BUSY: estimated wait exceeds threshold (avg_witness_ms="@
                                + text::dec(self.stats.avg_witness_ms as nat) + ")"@,
                        ),
                        Some("E_VALIDATOR_BUSY"@),
                    ),
                    Err(_) => r is None,
                },
    {
        let parsed = parse_email(raw, envelope);
        let ghost e = parsed;
        match parsed {
            Ok(m) => {
                let mut error = String::from_str(
                    "E_VALIDATOR_BUSY: estimated wait exceeds threshold (avg_witness_ms=",
                );
                text::push_dec(&mut error, self.stats.avg_witness_ms);
                error.append(")");
                let payload = ResponsePayload::bare(
                    false,
                    m.request_id.as_str(),
                    Some(error),
                    Some("E_VALIDATOR_BUSY"),
                );
                Some((m, payload))
            },
            Err(_) => None,
        }
    }

    /// Counts a request to the ledger service, and its failure if it failed.
    pub fn track_lambda<T>(&mut self, outcome: Result<T, AntieError>) -> (r: Result<T, AntieError>)
        ensures
            r == outcome,
            *final(self) == old(self).counting(
                (AntieStats {
                    lambda_requests: stats::bumped(old(self).stats.lambda_requests),
                    lambda_errors: if outcome is Err {
                        stats::bumped(old(self).stats.lambda_errors)
                    } else {
                        old(self).stats.lambda_errors
                    },
                    ..old(self).stats
                }),
            ),
    {
        self.stats.lambda_requests = bump(self.stats.lambda_requests);
        if outcome.is_err() {
            self.stats.lambda_errors = bump(self.stats.lambda_errors);
        }
        outcome
    }

    /// Takes a mail in: its request, or `None` if it is dropped. Mails that are too large, that
    /// cannot be opened or cannot be read are dropped without an answer, and counted.
    /// `envelope` is what the body is as an envelope, `opened` what a sealed one was found to
    /// hold.
    pub fn take_in(
        &mut self,
        raw: &[u8],
        envelope: Option<UmpEnvelope>,
        opened: Option<Vec<u8>>,
    ) -> (r: Option<AntieEmail>)
        ensures
            raw@.len() > MAX_MESSAGE_BYTES ==> r is None && *final(self) == old(self).counting(
                (AntieStats {
                    oversize_dropped: stats::bumped(old(self).stats.oversize_dropped),
                    ..old(self).stats
                }),
            ),
            raw@.len() <= MAX_MESSAGE_BYTES ==> exists|o: Result<ParseOutcome, AntieError>| #[trigger]
                email::mail_outcome(o, raw@, payload::opt(envelope), payload::opt(opened)) && match o {
                    Ok(ParseOutcome::Parsed(e)) => r == Some(*e) && *final(self) == *old(self),
                    Ok(ParseOutcome::DecryptFailed) => r is None && *final(self) == old(self).counting(
                        (AntieStats {
                            decrypt_fail: stats::bumped(old(self).stats.decrypt_fail),
                            ..old(self).stats
                        }),
                    ),
                    Err(_) => r is None && *final(self) == old(self).counting(
                        (AntieStats {
                            parse_fail: stats::bumped(old(self).stats.parse_fail),
                            ..old(self).stats
                        }),
                    ),
                },
    {
        if raw.len() > MAX_MESSAGE_BYTES {
            self.stats.oversize_dropped = bump(self.stats.oversize_dropped);
            return None;
        }
        let o = parse_email_outcome(raw, envelope, opened);
        let ghost outcome = o;
        match o {
            Ok(ParseOutcome::Parsed(e)) => Some(*e),
            Ok(ParseOutcome::DecryptFailed) => {
                self.stats.decrypt_fail = bump(self.stats.decrypt_fail);
                None
            },
            Err(_) => {
                self.stats.parse_fail = bump(self.stats.parse_fail);
                None
            },
        }
    }

    /// Whether a wallet is on the ban list, given what its file holds.
    pub fn check_ban_list(&self, contents: Option<&str>, wallet_id: &str) -> (r: bool)
        ensures
            r == (self.config.nabla_ban_list_path is Some && is_banned(payload::opt_str(contents), wallet_id@)),
    {
        if self.config.nabla_ban_list_path.is_none() {
            return false;
        }
        match contents {
            Some(c) => any_line_is(c, wallet_id),
            None => false,
        }
    }

    /// Lets a witness request through, or turns it away. What it leaves to the mail is filled
    /// in first. A wallet that asks again too soon is turned away, and then one that is on the
    /// ban list, unless the request carries signatures of the previous witnesses or names no
    /// sender. `now` is the time on the limiter's clock, `ban_list` what the ban list holds.
    pub fn admit_witness(
        &mut self,
        req: WitnessRequest,
        email: &AntieEmail,
        now: u64,
        ban_list: Option<&str>,
    ) -> (r: Result<WitnessRequest, AntieError>)
        requires
            old(self).wallet_rate_limiter.wf(),
        ensures
            final(self).wallet_rate_limiter.wf(),
            final(self).wallet_rate_limiter.pause() == old(self).wallet_rate_limiter.pause(),
            match admission(*old(self), req, now, payload::opt_str(ban_list)) {
                Admission::Free => r is Ok && *final(self) == *old(self),
                Admission::TooSoon => {
                    &&& r matches Err(e) && e@ == ErrorView::RateLimited(too_soon(req.sender_wallet_id@))
                    &&& *final(self) == (Gateway {
                        stats: (AntieStats {
                            rate_limited: stats::bumped(old(self).stats.rate_limited),
                            ..old(self).stats
                        }),
                        wallet_rate_limiter: final(self).wallet_rate_limiter,
                        ..*old(self)
                    })
                    &&& forall|id: Seq<char>| #[trigger]
                        final(self).wallet_rate_limiter.last(id) == old(self).wallet_rate_limiter.last(id)
                },
                Admission::Banned => {
                    &&& r matches Err(e) && e@ == ErrorView::WalletBanned(banned(req.sender_wallet_id@))
                    &&& *final(self) == (Gateway {
                        stats: (AntieStats {
                            ban_rejected: stats::bumped(old(self).stats.ban_rejected),
                            ..old(self).stats
                        }),
                        wallet_rate_limiter: final(self).wallet_rate_limiter,
                        ..*old(self)
                    })
                    &&& remembers(*old(self), *final(self), req.sender_wallet_id@, now)
                },
                Admission::Counted => {
                    &&& r is Ok
                    &&& *final(self) == (Gateway {
                        wallet_rate_limiter: final(self).wallet_rate_limiter,
                        ..*old(self)
                    })
                    &&& remembers(*old(self), *final(self), req.sender_wallet_id@, now)
                },
            },
            r matches Ok(q) ==> same_request(q, req) && q.request_id@ == or_else(
                req.request_id@,
                email.request_id@,
            ) && q.requester_address@ == or_else(req.requester_address@, email.from@)
                && q.produced_state_id == req.produced_state_id && q.commitment_hash
                == req.commitment_hash,
    {
        let req = fill_in(req, email.request_id.as_str(), email.from.as_str());
        if req.overlapped_signatures != 0 || req.sender_wallet_id.as_str().is_empty() {
            return Ok(req);
        }
        let id = req.sender_wallet_id.as_str();
        if !self.wallet_rate_limiter.check_and_record_at(id, now) {
            self.stats.rate_limited = bump(self.stats.rate_limited);
            let mut m = String::from_str("E_WALLET_RATE_LIMITED: wallet ");
            m.append(id);
            m.append(" — retry after cooldown");
            return Err(AntieError::RateLimited(m));
        }
        if self.wallet_rate_limiter.len() > EVICTION_SIZE {
            self.wallet_rate_limiter.evict_stale_at(now);
        }
        if self.check_ban_list(ban_list, id) {
            self.stats.ban_rejected = bump(self.stats.ban_rejected);
            let mut m = String::from_str("E_WALLET_BANNED: wallet ");
            m.append(id);
            m.append(" is banned (YP §32)");
            return Err(AntieError::WalletBanned(m));
        }
        Ok(req)
    }

    /// Writes the answer to a request. If a sibling carrier waits for it, a copy is written too:
    /// first to one file, which is then renamed to another. `pid` and `nanos` make the first
    /// name unique.
    pub fn send_response(
        &self,
        original: &AntieEmail,
        payload: &ResponsePayload,
        pid: u32,
        nanos: u128,
    ) -> (r: Result<Outgoing, AntieError>)
        ensures
            match email::address_error(original.from@) {
                Some(e) => r matches Err(got) && got@ == e,
                None => match email::address_error(self.config.identity.email@) {
                    Some(e) => r matches Err(got) && got@ == e,
                    None => match response::query_form(payload.query_data) {
                        Err(e) => r matches Err(got) && got@ == ErrorView::SerializationError(
                            "CBOR encode: "@ + e,
                        ),
                        Ok(query) => r matches Ok(o) && o.to@ == original.from@ && email::is_mail(
                            o.mail@,
                            self.config.identity.email@,
                            original.from@,
                            response_kind(payload.success),
                            payload.request_id@,
                            payload::opt(original.message_id),
                            response_cbor(*payload, query),
                        ) && email::reads_back(response_cbor(*payload, query)) && match (
                            self.uncle_sink,
                            original.uncle_correlate,
                        ) {
                            (Some(s), Some(c)) => o.copy matches Some(p) && p.0@ == paths::joined(
                                s.dir(),
                                uncle_sink::draft_name(pid as nat, nanos as nat),
                            ) && p.1@ == paths::joined(s.dir(), uncle_sink::copy_name(c@)),
                            _ => o.copy is None,
                        },
                    },
                },
            },
    {
        match email::validate_email_addr(original.from.as_str()) {
            Err(e) => {
                return Err(e);
            },
            Ok(_) => {},
        }
        match email::validate_email_addr(self.config.identity.email.as_str()) {
            Err(e) => {
                return Err(e);
            },
            Ok(_) => {},
        }
        let cbor_bytes = match payload.to_cbor() {
            Err(e) => {
                return Err(e);
            },
            Ok(b) => b,
        };
        let kind = if payload.success {
            "witness_response"
        } else {
            "error"
        };
        let reply = as_opt(&original.message_id);
        let mail = match build_response(
            original.from.as_str(),
            self.config.identity.email.as_str(),
            kind,
            payload.request_id.as_str(),
            reply,
            cbor_bytes.as_slice(),
        ) {
            Err(e) => {
                return Err(e);
            },
            Ok(m) => m,
        };
        let copy = match (&self.uncle_sink, &original.uncle_correlate) {
            (Some(s), Some(c)) => Some(s.tee(c, pid, nanos)),
            _ => None,
        };
        Ok(Outgoing { to: original.from.clone(), mail, copy })
    }

    /// Counts a mail that was sent.
    pub fn count_sent(&mut self)
        ensures
            *final(self) == old(self).counting(
                (AntieStats { emails_sent: stats::bumped(old(self).stats.emails_sent), ..old(self).stats }),
            ),
    {
        self.stats.emails_sent = bump(self.stats.emails_sent);
    }
}

/// The counters once a mail has been taken up, and turned away if the wait is too long.
pub open spec fn taken_up(s: AntieStats, busy: bool) -> AntieStats {
    AntieStats {
        messages_received: stats::bumped(s.messages_received),
        busy_rejections: if busy {
            stats::bumped(s.busy_rejections)
        } else {
            s.busy_rejections
        },
        ..s
    }
}

/// The counters once a mail has been dealt with.
pub open spec fn finished(s: AntieStats, failed: bool) -> AntieStats {
    if failed {
        AntieStats { messages_failed: stats::bumped(s.messages_failed), ..s }
    } else {
        AntieStats { messages_processed: stats::bumped(s.messages_processed), ..s }
    }
}

/// How a carrier marks a mail.
pub enum Mark {
    /// As processed.
    Processed,
    /// As failed, with the text of the error.
    Failed(String),
}

/// The mails of a batch: those that a carrier has, or none if looking for them failed.
pub fn batch(found: Result<Vec<IncomingMessage>, AntieError>) -> (r: Vec<IncomingMessage>)
    ensures
        match found {
            Ok(mails) => r == mails,
            Err(_) => r@.len() == 0,
        },
{
    match found {
        Ok(mails) => mails,
        Err(_) => Vec::new(),
    }
}

/// What becomes of one mail of a batch, and the counters on the way: before it is taken up,
/// once it has been handled, and when it is done with.
pub struct Turn {
    pub before: AntieStats,
    pub handled: AntieStats,
    pub after: AntieStats,
    pub busy: bool,
    pub failed: bool,
}

/// Whether counters agree on the mails of batches. Handling a mail changes other counters only.
pub open spec fn same_turns(a: AntieStats, b: AntieStats) -> bool {
    &&& a.messages_received == b.messages_received
    &&& a.busy_rejections == b.busy_rejections
    &&& a.messages_processed == b.messages_processed
    &&& a.messages_failed == b.messages_failed
}

/// Whether a turn is that of a mail that was taken up, handled, and finished unless it had been
/// turned away.
pub open spec fn is_turn(t: Turn) -> bool {
    &&& same_turns(taken_up(t.before, t.busy), t.handled)
    &&& t.after == if t.busy {
        t.handled
    } else {
        finished(t.handled, t.failed)
    }
}

/// Whether turns follow each other from some counters on.
pub open spec fn is_batch(start: AntieStats, turns: Seq<Turn>) -> bool {
    forall|i: int|
        0 <= i < turns.len() ==> is_turn(#[trigger] turns[i]) && same_turns(
            if i == 0 {
                start
            } else {
                turns[i - 1].after
            },
            turns[i].before,
        )
}

/// The counters at the end of a batch.
pub open spec fn end_of(start: AntieStats, turns: Seq<Turn>) -> AntieStats {
    if turns.len() == 0 {
        start
    } else {
        turns.last().after
    }
}

/// Whether a counter has gone up by so much. After the largest number comes zero.
#[verifier::opaque]
pub open spec fn went_up(before: int, after: int, by: nat) -> bool {
    (before + by - after) % 0x1_0000_0000_0000_0000 == 0
}

/// What became of a mail in the end.
pub enum End {
    /// It was turned away, and marked as processed.
    TurnedAway,
    /// It was marked as processed.
    Processed,
    /// It was marked as failed.
    Failed,
}

/// What became of the mail of a turn.
pub open spec fn end_of_turn(t: Turn) -> End {
    if t.busy {
        End::TurnedAway
    } else if t.failed {
        End::Failed
    } else {
        End::Processed
    }
}

/// How many turns have the given end.
pub open spec fn ending(turns: Seq<Turn>, end: End) -> nat
    decreases turns.len(),
{
    if turns.len() == 0 {
        0
    } else {
        ending(turns.drop_last(), end) + if end_of_turn(turns.last()) == end {
            1nat
        } else {
            0nat
        }
    }
}

/// The counter of mails with the given end.
pub open spec fn counter(s: AntieStats, end: End) -> int {
    match end {
        End::TurnedAway => s.busy_rejections as int,
        End::Processed => s.messages_processed as int,
        End::Failed => s.messages_failed as int,
    }
}

proof fn lemma_one_more(before: int, n: u64, by: nat)
    requires
        went_up(before, n as int, by),
    ensures
        went_up(before, stats::bumped(n) as int, by + 1),
{
    reveal(went_up);
    if n == u64::MAX {
        assert((before + (by + 1) - 0) % 0x1_0000_0000_0000_0000 == (before + by - n)
            % 0x1_0000_0000_0000_0000) by {
            vstd::arithmetic::div_mod::lemma_mod_add_multiples_vanish(
                before + by - n,
                0x1_0000_0000_0000_0000,
            );
        }
    }
}

proof fn lemma_turn(start: AntieStats, at: AntieStats, t: Turn, by: nat, end: End, n: nat)
    requires
        is_turn(t),
        same_turns(at, t.before),
        went_up(start.messages_received as int, at.messages_received as int, by),
        went_up(counter(start, end), counter(at, end), n),
    ensures
        went_up(start.messages_received as int, t.after.messages_received as int, by + 1),
        went_up(
            counter(start, end),
            counter(t.after, end),
            n + if end_of_turn(t) == end {
                1nat
            } else {
                0nat
            },
        ),
{
    lemma_one_more(start.messages_received as int, at.messages_received, by);
    if end_of_turn(t) == end {
        match end {
            End::TurnedAway => lemma_one_more(counter(start, end), at.busy_rejections, n),
            End::Processed => lemma_one_more(counter(start, end), at.messages_processed, n),
            End::Failed => lemma_one_more(counter(start, end), at.messages_failed, n),
        }
    }
}

/// A batch adds its mails to those received, and each of them to the counter of its end alone:
/// as many mails as there are come to be turned away, processed or failed. An empty batch
/// changes nothing.
pub proof fn law_batch_adds_up(start: AntieStats, turns: Seq<Turn>)
    requires
        is_batch(start, turns),
    ensures
        went_up(
            start.messages_received as int,
            end_of(start, turns).messages_received as int,
            turns.len(),
        ),
        forall|end: End| #[trigger]
            went_up(counter(start, end), counter(end_of(start, turns), end), ending(turns, end)),
        ending(turns, End::TurnedAway) + ending(turns, End::Processed) + ending(turns, End::Failed)
            == turns.len(),
        turns.len() == 0 ==> end_of(start, turns) == start,
    decreases turns.len(),
{
    if turns.len() == 0 {
        reveal(went_up);
    } else {
        let most = turns.drop_last();
        assert forall|i: int| 0 <= i < most.len() implies is_turn(#[trigger] most[i]) && same_turns(
            if i == 0 {
                start
            } else {
                most[i - 1].after
            },
            most[i].before,
        ) by {
            assert(is_turn(turns[i]));
        }
        law_batch_adds_up(start, most);
        assert(is_turn(turns[turns.len() - 1]));
        assert forall|end: End| #[trigger]
            went_up(counter(start, end), counter(end_of(start, turns), end), ending(turns, end)) by {
            assert(went_up(counter(start, end), counter(end_of(start, most), end), ending(most, end)));
            lemma_turn(start, end_of(start, most), turns.last(), most.len(), end, ending(most, end));
        }
        lemma_turn(
            start,
            end_of(start, most),
            turns.last(),
            most.len(),
            End::Failed,
            ending(most, End::Failed),
        );
    }
}

/// An answer in CBOR. `query` is what a query found, in CBOR.
pub open spec fn response_cbor(p: ResponsePayload, query: Option<Seq<u8>>) -> Seq<u8> {
    email::cbor_map(response::response_fields(p, query))
}

/// An answer on its way.
pub struct Outgoing {
    pub to: String,
    pub mail: Vec<u8>,
    /// Where a copy is written, and then renamed to.
    pub copy: Option<(String, String)>,
}

/// The kind of mail that carries an answer.
pub open spec fn response_kind(success: bool) -> Seq<char> {
    if success {
        "witness_response"@
    } else {
        "error"@
    }
}

/// Whether a wallet is on a ban list: some line of it, trimmed, is the wallet's id. A list
/// that cannot be read bans nobody.
pub open spec fn is_banned(contents: Option<Seq<char>>, wallet_id: Seq<char>) -> bool {
    match contents {
        Some(c) => has_line(text::lines(c), wallet_id),
        None => false,
    }
}

/// Whether some line, trimmed, is the given text.
pub open spec fn has_line(lines: Seq<Seq<char>>, s: Seq<char>) -> bool {
    exists|i: int| 0 <= i < lines.len() && text::trim(#[trigger] lines[i]) == s
}

fn any_line_is(contents: &str, wallet_id: &str) -> (r: bool)
    ensures
        r == is_banned(Some(contents@), wallet_id@),
{
    let lines = text::lines_of(contents);
    let ghost all = text::lines(contents@);
    let mut i: usize = 0;
    while i < lines.len()
        invariant
            i <= lines@.len(),
            all == text::views(lines@),
            all == text::lines(contents@),
            forall|k: int| 0 <= k < i ==> text::trim(#[trigger] all[k]) != wallet_id@,
        decreases lines@.len() - i,
    {
        let line = text::trimmed(lines[i].as_str());
        if text::same_text(line.as_str(), wallet_id) {
            assert(text::trim(all[i as int]) == wallet_id@);
            return true;
        }
        i = i + 1;
    }
    false
}

/// What becomes of a witness request.
pub enum Admission {
    /// It is let through without a look at who asks.
    Free,
    /// The wallet asks again too soon.
    TooSoon,
    /// The wallet is on the ban list.
    Banned,
    /// It is let through, and the wallet's time is noted.
    Counted,
}

/// What becomes of a witness request.
pub open spec fn admission(
    g: Gateway,
    req: WitnessRequest,
    now: u64,
    ban_list: Option<Seq<char>>,
) -> Admission {
    let id = req.sender_wallet_id@;
    if req.overlapped_signatures != 0 || id.len() == 0 {
        Admission::Free
    } else if !limiter::may_ask(
        g.wallet_rate_limiter.last(id),
        now,
        g.wallet_rate_limiter.pause(),
    ) {
        Admission::TooSoon
    } else if g.config.nabla_ban_list_path is Some && is_banned(ban_list, id) {
        Admission::Banned
    } else {
        Admission::Counted
    }
}

/// What a wallet that asks again too soon is told.
pub open spec fn too_soon(wallet_id: Seq<char>) -> Seq<char> {
    "E_WALLET_RATE_LIMITED: wallet "@ + wallet_id + " — retry after cooldown"@
}

/// What a wallet on the ban list is told.
pub open spec fn banned(wallet_id: Seq<char>) -> Seq<char> {
    "E_WALLET_BANNED: wallet "@ + wallet_id + " is banned (YP §32)"@
}

/// Whether a gateway remembers what another did, and that a wallet asked at `now`. If it would
/// remember too many wallets, those that asked long ago are forgotten.
pub open spec fn remembers(before: Gateway, after: Gateway, wallet_id: Seq<char>, now: u64) -> bool {
    let pause = before.wallet_rate_limiter.pause();
    let known = before.wallet_rate_limiter.known() + if before.wallet_rate_limiter.last(wallet_id) is None {
        1int
    } else {
        0int
    };
    forall|id: Seq<char>|
        {
            let last = if id == wallet_id {
                Some(now)
            } else {
                before.wallet_rate_limiter.last(id)
            };
            #[trigger] after.wallet_rate_limiter.last(id) == if known > EVICTION_SIZE {
                limiter::kept(last, now, pause)
            } else {
                last
            }
        }
}

/// Once a wallet has been let through, its next request is turned away until the pause is
/// over, whatever else was asked at that moment.
pub proof fn law_second_request_waits(
    before: Gateway,
    after: Gateway,
    req: WitnessRequest,
    first: u64,
    second: u64,
    ban_list: Option<Seq<char>>,
)
    requires
        admission(before, req, first, ban_list) is Counted,
        remembers(before, after, req.sender_wallet_id@, first),
        after.wallet_rate_limiter.pause() == before.wallet_rate_limiter.pause(),
        first <= second < first + before.wallet_rate_limiter.pause() * 1_000_000,
    ensures
        admission(after, req, second, ban_list) is TooSoon,
{
    assert(after.wallet_rate_limiter.last(req.sender_wallet_id@) == Some(first));
}


// ---------------------------------------------------------------------------
// Laws
// ---------------------------------------------------------------------------

/// A text is made fit for the log part by part: line ends are written out as two characters,
/// and nothing else changes.
pub proof fn law_log_text_part_by_part(a: Seq<char>, b: Seq<char>, c: char)
    ensures
        log_text(a + b) == log_text(a) + log_text(b),
        log_text(seq!['\n']) == seq!['\\', 'n'],
        log_text(seq!['\r']) == seq!['\\', 'r'],
        c != '\n' && c != '\r' ==> log_text(seq![c]) == seq![c],
{
    reveal_strlit("\\n");
    reveal_strlit("\\r");
    assert("\\n"@ =~= seq!['\\', 'n']);
    assert("\\r"@ =~= seq!['\\', 'r']);
    text::law_replaced_part_by_part(a, b, c, '\n', "\\n"@);
    text::law_replaced_part_by_part(
        text::replaced(a, '\n', "\\n"@),
        text::replaced(b, '\n', "\\n"@),
        c,
        '\r',
        "\\r"@,
    );
    text::law_replaced_part_by_part(a, b, '\r', '\n', "\\n"@);
    text::law_replaced_part_by_part(seq!['\\'], seq!['n'], '\\', '\r', "\\r"@);
    text::law_replaced_part_by_part(seq!['\\'], seq!['n'], 'n', '\r', "\\r"@);
    assert(seq!['\\'] + seq!['n'] =~= seq!['\\', 'n']);
}

/// The load is asked for on this machine, at the given port, with the token if there is one.
pub proof fn law_load_is_asked_for_here(port: u16, token: Seq<char>)
    ensures
        text::starts_with(stats_address(port, None), "http://127.0.0.1:"@),
        stats_address(port, None) == "http://127.0.0.1:"@ + text::dec(port as nat) + "/stats"@,
        stats_address(port, Some(token)) == stats_address(port, None) + "?token="@ + token,
{
    assert(stats_address(port, None).take("http://127.0.0.1:"@.len() as int) =~= "http://127.0.0.1:"@);
}

/// The average is the number that stands behind its name, up to the next comma or brace, with
/// white space round it or without. A text that does not name it reports none.
pub proof fn law_average_stands_behind_its_name(
    before: Seq<char>,
    w: Seq<char>,
    n: nat,
    v: Seq<char>,
    end: char,
    rest: Seq<char>,
)
    requires
        text::all_white(w),
        text::all_white(v),
        n <= u64::MAX,
        end == ',' || end == '}',
        text::first_from(
            before + "\"avg_witness_ms\":"@ + (w + text::dec(n) + v) + seq![end] + rest,
            "\"avg_witness_ms\":"@,
            0,
        ) == Some(before.len() as int),
    ensures
        reported_average(before + "\"avg_witness_ms\":"@ + (w + text::dec(n) + v) + seq![end] + rest) == Some(n),
        forall|s: Seq<char>| !text::holds(s, "\"avg_witness_ms\":"@) ==> #[trigger] reported_average(s) is None,
{
    let key = "\"avg_witness_ms\":"@;
    let inner = w + text::dec(n) + v;
    let s = before + key + inner + seq![end] + rest;
    let after = s.skip(before.len() as int + key.len());
    assert(after =~= inner + seq![end] + rest);
    text::lemma_dec_digits(n);
    assert forall|i: int| 0 <= i < inner.len() implies inner[i] != ',' && inner[i] != '}' by {
        if i < w.len() {
            assert(text::is_white(w[i]));
        } else if i < w.len() + text::dec(n).len() {
            assert(text::is_digit(text::dec(n)[i - w.len()]));
        } else {
            assert(text::is_white(v[i - w.len() - text::dec(n).len()]));
        }
    }
    text::law_first_of_two_characters(after, ',', '}');
    assert(after[inner.len() as int] == end);
    assert(after.contains(end));
    let e = text::first_of(after, ',', '}')->0;
    assert(e == inner.len()) by {
        if e < inner.len() {
            assert(after[e] == inner[e]);
        }
    }
    assert(after.take(e) =~= inner);
    let d = text::dec(n);
    assert(text::is_digit(d[0]) && text::is_digit(d[d.len() - 1]));
    text::law_trimmed_is_what_stands_inside(w, d, v);
    text::law_numerals_read_back(n, u64::MAX as nat, d);
    assert forall|t: Seq<char>| !text::holds(t, key) implies #[trigger] reported_average(t) is None by {
        text::law_found_where_it_stands_first(t, key, 0);
        if let Some(p) = text::first_from(t, key, 0) {
            assert(text::starts_with(t.skip(p), key));
        }
    }
}

/// A longer queue, a longer average and a lower limit make nobody wait less. An empty queue is
/// never too long, nor is any queue where there is no limit; one that takes just as long as
/// the limit is not too long, and one that takes longer is.
pub proof fn law_longer_queues_wait_longer(depth: nat, more: nat, average: u64, slower: u64, limit: u64, lower: u64)
    requires
        depth <= more,
        average <= slower,
        0 < lower <= limit,
    ensures
        too_busy(depth, average, limit) ==> too_busy(more, slower, lower),
        !too_busy(0, average, limit),
        !too_busy(depth, average, 0),
        depth * average == limit ==> !too_busy(depth, average, limit),
        depth * average == limit + 1 ==> too_busy(depth, average, limit),
{
    assert(depth * average <= more * slower) by (nonlinear_arith)
        requires
            depth <= more,
            average <= slower,
    ;
}

/// The core is where the configuration says; if it does not say, where the environment does;
/// and if that does not either, beside the old core or here.
pub proof fn law_configuration_places_the_core(config: AntieConfig, env: Option<Seq<char>>)
    ensures
        config.core.avm_elf_path matches Some(p) ==> core_place(config, env) == p@,
        config.core.avm_elf_path is None && env is Some ==> core_place(config, env) == env->0,
        config.core.avm_elf_path is None && env is None && config.core.core_bin_path is None ==> core_place(
            config,
            env,
        ) == "./axiom-core.elf"@,
        config.core.avm_elf_path is None && env is None ==> (config.core.core_bin_path matches Some(b) ==> (
        match paths::parent_text(b@) {
            Some(d) => core_place(config, env) == paths::joined(d, "axiom-core.elf"@),
            None => core_place(config, env) == "./axiom-core.elf"@,
        })),
{
}

/// A gateway starts if it gets mail, can send, has a core and a way to the ledger service, and
/// reads the key that it is to use; and only then.
pub proof fn law_gateway_starts_if_nothing_is_missing(
    config: AntieConfig,
    env: Option<Seq<char>>,
    core: CoreFound,
    ca: Result<Seq<u8>, Seq<char>>,
    key: Result<Seq<u8>, Seq<char>>,
)
    ensures
        start_error(config, env, core, ca, key) is None <==> {
            &&& config.carriers.maildir is Some || config.carriers.imap is Some || config.carriers.pop3 is Some
            &&& config.outbound.smtp is Some || config.carriers.maildir is Some
            &&& core is Loaded
            &&& client_error(config.lambda, ca) is None
            &&& config.validator.private_key_path is Some ==> key is Ok && key->Ok_0.len() == 32
        },
        config.carriers.takes_mail() && config.carriers.maildir is Some ==> {
            &&& core is Missing ==> start_error(config, env, core, ca, key) == Some(
                missing_core(core_place(config, env)),
            )
            &&& core is Broken ==> start_error(config, env, core, ca, key) == Some(
                ErrorView::ConfigError("Failed to load AVM ELF: "@ + core->Broken_0@),
            )
            &&& core is Loaded && client_error(config.lambda, ca) is Some ==> start_error(
                config,
                env,
                core,
                ca,
                key,
            ) == client_error(config.lambda, ca)
        },
        !config.carriers.takes_mail() ==> start_error(config, env, core, ca, key) == Some(
            ErrorView::ConfigError(
                "at least one email carrier (maildir, imap, or pop3) must be configured — tcp alone is not valid; email is required for fan-out"@,
            ),
        ),
{
}

/// Only a ledger service that is reached over TLS can be set up wrong.
pub proof fn law_only_tls_can_be_wrong(config: LambdaConfig, ca: Result<Seq<u8>, Seq<char>>)
    ensures
        config is Subprocess ==> client_error(config, ca) is None,
        config is Tcp && config->tls_server_name is None ==> client_error(config, ca) is None,
        config is Tcp && config->tls_server_name is Some ==> client_error(config, ca)
            == lambda_client::tls_error(
            config->tls_server_name->0@,
            payload::opt(config->tls_ca_cert_path),
            ca,
        ),
{
}

/// A gateway that has started sends by the mail server where one is set, keeps the pause that
/// is set, and shows the first half of the core's fingerprint. It has seen nothing yet.
pub proof fn law_started_gateway_is_as_configured(
    g: Gateway,
    config: AntieConfig,
    list: Option<Seq<char>>,
    core: CoreFound,
    ca: Result<Seq<u8>, Seq<char>>,
    key: Result<Seq<u8>, Seq<char>>,
    id: Seq<u8>,
)
    requires
        is_started(g, config, list, core, ca, key),
    ensures
        g.config == config,
        g.running,
        !g.seen().contains(id),
        g.sender is Smtp <==> config.outbound.smtp is Some,
        g.sender is Smtp ==> g.sender->Smtp_0.server@ == config.outbound.smtp->0.server@
            && g.sender->Smtp_0.port == config.outbound.smtp->0.port
            && g.sender->Smtp_0.from_address@ == config.outbound.smtp->0.from_address@,
        g.sender is Maildir ==> g.sender->Maildir_0.inbox.at() == config.carriers.maildir->0.inbox@
            && g.sender->Maildir_0.outbox.at() == config.carriers.maildir->0.outbox@,
        config.wallet_witness_cooldown_ms matches Some(ms) ==> g.wallet_rate_limiter.pause() == ms,
        config.wallet_witness_cooldown_ms is None ==> g.wallet_rate_limiter.pause() == 2_000,
        core is Loaded && text::hex_bytes(g.stats.core_version@) == core->Loaded_0@.take(16),
        g.skip_list is Some <==> config.skip_list_path is Some && config.skipped_dir_path is Some,
        g.skip_list is Some && list is None ==> g.skip_list->0.ids() == Set::<Seq<char>>::empty(),
        g.skip_list is Some && list is Some ==> g.skip_list->0.ids() == skip_list::listed(list->0),
        g.uncle_sink is Some <==> config.outbound.uncle is Some,
        g.envelope_decryptor is Some <==> config.validator.private_key_path is Some && key is Ok,
        config.lambda is Subprocess <==> g.lambda.spec_mode() is Subprocess,
        config.lambda is Subprocess ==> g.lambda.spec_mode()->binary_path@ == config.lambda->binary_path@
            && g.lambda.spec_mode()->config_path@ == config.lambda->config_path@,
        config.lambda is Tcp ==> g.lambda.spec_mode()->address@ == config.lambda->address@
            && g.lambda.spec_mode()->timeout_secs == config.lambda->timeout_secs && payload::opt(
            g.lambda.spec_mode()->server_name,
        ) == payload::opt(config.lambda->tls_server_name),
{
    if core is Loaded {
        text::lemma_hex_round_trip(core->Loaded_0@.take(16));
    }
}

/// The lines of a ban list decide one by one: the first one counts if it is the wallet's id
/// with white space round it or without, and otherwise the others decide. An empty list and
/// one that cannot be read ban nobody.
pub proof fn law_ban_list_is_read_line_by_line(
    before: Seq<char>,
    name: Seq<char>,
    after: Seq<char>,
    rest: Seq<char>,
    id: Seq<char>,
)
    requires
        text::all_white(before),
        text::all_white(after),
        text::is_tight(name),
        !(before + name + after).contains('\n'),
    ensures
        is_banned(Some(before + name + after + seq!['\r', '\n'] + rest), id) == (name == id || is_banned(
            Some(rest),
            id,
        )),
        !is_banned(Some(Seq::empty()), id),
        !is_banned(None, id),
{
    let line = before + name + after;
    text::law_lines_end_at_line_feeds(line, rest);
    text::law_trimmed_is_what_stands_inside(before, name, after);
    let others = text::lines(rest);
    let all = seq![line] + others;
    assert(all[0] == line);
    if has_line(others, id) {
        let i = choose|i: int| 0 <= i < others.len() && text::trim(#[trigger] others[i]) == id;
        assert(all[i + 1] == others[i]);
    }
    if has_line(all, id) {
        let i = choose|i: int| 0 <= i < all.len() && text::trim(#[trigger] all[i]) == id;
        if i > 0 {
            assert(all[i] == others[i - 1]);
        }
    }
}

/// A request that carries earlier signatures, or names no sender, is let through. Of the
/// others, those that come too soon are turned away first, and then those of a banned wallet;
/// a wallet that never asked never comes too soon.
pub proof fn law_who_is_let_through(
    g: Gateway,
    req: WitnessRequest,
    now: u64,
    ban_list: Option<Seq<char>>,
)
    ensures
        req.overlapped_signatures > 0 ==> admission(g, req, now, ban_list) is Free,
        req.sender_wallet_id@ == Seq::<char>::empty() ==> admission(g, req, now, ban_list) is Free,
        admission(g, req, now, ban_list) is Free ==> req.overlapped_signatures > 0 || req.sender_wallet_id@
            == Seq::<char>::empty(),
        g.wallet_rate_limiter.last(req.sender_wallet_id@) is None ==> !(admission(g, req, now, ban_list) is TooSoon),
        admission(g, req, now, ban_list) is Banned ==> g.config.nabla_ban_list_path is Some && is_banned(
            ban_list,
            req.sender_wallet_id@,
        ),
        admission(g, req, now, ban_list) is Counted ==> g.config.nabla_ban_list_path is None || !is_banned(
            ban_list,
            req.sender_wallet_id@,
        ),
        admission(g, req, now, ban_list) is Counted || admission(g, req, now, ban_list) is Banned
            ==> limiter::may_ask(
            g.wallet_rate_limiter.last(req.sender_wallet_id@),
            now,
            g.wallet_rate_limiter.pause(),
        ),
        admission(g, req, now, ban_list) is TooSoon ==> (g.wallet_rate_limiter.last(req.sender_wallet_id@) matches Some(
            t,
        ) && now - t < g.wallet_rate_limiter.pause() * 1_000_000),
{
    let id = req.sender_wallet_id@;
    assert(id.len() == 0 ==> id =~= Seq::<char>::empty());
}

/// A wallet that is turned away is told why, with its id.
pub proof fn law_refusals_name_the_wallet(id: Seq<char>)
    ensures
        too_soon(id) == "E_WALLET_RATE_LIMITED: wallet "@ + id + " — retry after cooldown"@,
        banned(id) == "E_WALLET_BANNED: wallet "@ + id + " is banned (YP §32)"@,
{
}

/// Remembering a wallet leaves the others as they were; where there are too many, only those
/// that asked at least two pauses ago are forgotten.
pub proof fn law_others_are_remembered(before: Gateway, after: Gateway, id: Seq<char>, other: Seq<char>, now: u64)
    requires
        remembers(before, after, id, now),
        other != id,
    ensures
        before.wallet_rate_limiter.known() < 100 ==> after.wallet_rate_limiter.last(other)
            == before.wallet_rate_limiter.last(other),
        before.wallet_rate_limiter.known() < 100 ==> after.wallet_rate_limiter.last(id) == Some(now),
        after.wallet_rate_limiter.last(other) is Some ==> after.wallet_rate_limiter.last(other)
            == before.wallet_rate_limiter.last(other),
        before.wallet_rate_limiter.last(other) matches Some(t) ==> now - t < 2
            * before.wallet_rate_limiter.pause() * 1_000_000 ==> after.wallet_rate_limiter.last(other)
            == Some(t),
        before.wallet_rate_limiter.known() > 100 ==> (before.wallet_rate_limiter.last(other) matches Some(t)
            ==> (now - t >= 2 * before.wallet_rate_limiter.pause() * 1_000_000
            ==> after.wallet_rate_limiter.last(other) is None)),
{
}

/// Taking a mail up, and being done with it, changes the counters of mails and no other.
pub proof fn law_turns_change_no_other_counter(s: AntieStats, busy: bool, failed: bool)
    ensures
        (AntieStats {
            messages_received: s.messages_received,
            busy_rejections: s.busy_rejections,
            ..taken_up(s, busy)
        }) == s,
        (AntieStats {
            messages_processed: s.messages_processed,
            messages_failed: s.messages_failed,
            ..finished(s, failed)
        }) == s,
        taken_up(s, busy).messages_received == s.messages_received.wrapping_add(1),
        taken_up(s, true).busy_rejections == s.busy_rejections.wrapping_add(1),
        taken_up(s, false).busy_rejections == s.busy_rejections,
        finished(s, true).messages_failed == s.messages_failed.wrapping_add(1),
        finished(s, true).messages_processed == s.messages_processed,
        finished(s, false).messages_processed == s.messages_processed.wrapping_add(1),
        finished(s, false).messages_failed == s.messages_failed,
{
}

/// Only a success is answered as what a witness says.
pub proof fn law_kind_of_an_answer(success: bool)
    ensures
        response_kind(success) == "witness_response"@ <==> success,
        response_kind(success) == "error"@ <==> !success,
{
    reveal_strlit("witness_response");
    reveal_strlit("error");
    assert("witness_response"@.len() == 16 && "error"@.len() == 5);
}


/// An answer is written as the map of its fields.
pub proof fn law_answer_is_written_as_a_map(p: ResponsePayload, query: Option<Seq<u8>>)
    ensures
        response_cbor(p, query) == email::cbor_map(response::response_fields(p, query)),
{
}


/// A missing core is named with the place where it was looked for, and how to get one.
pub proof fn law_missing_core_is_named(path: Seq<char>)
    ensures
        missing_core(path) == ErrorView::ConfigError(
            "No AVM ELF found at "@ + paths::path_debug_text(path)
                + ". Set avm_elf_path in config, set AXIOM_AVM_ELF env var, or place axiom-core.elf there. Run build-zkvm.sh to build it."@,
        ),
{
}

/// A message has been seen if it is one of those that were accepted, and only then.
pub proof fn law_seen_are_those_accepted(g: Gateway, id: Seq<u8>)
    ensures
        forall|i: int| 0 <= i < g.fanout_seen@.len() ==> g.seen().contains(#[trigger] g.fanout_seen@[i]@),
        g.fanout_seen@.len() == 0 ==> !g.seen().contains(id),
        g.seen().contains(id) ==> exists|i: int| 0 <= i < g.fanout_seen@.len() && #[trigger] g.fanout_seen@[i]@ == id,
{
}

/// A gateway that has started opens what is sealed for the key of its key file, writes copies
/// and skipped cheques where it is told to, and trusts the certificates that it is given.
pub proof fn law_started_gateway_uses_its_files(
    g: Gateway,
    config: AntieConfig,
    list: Option<Seq<char>>,
    core: CoreFound,
    ca: Result<Seq<u8>, Seq<char>>,
    key: Result<Seq<u8>, Seq<char>>,
)
    requires
        is_started(g, config, list, core, ca, key),
    ensures
        g.envelope_decryptor matches Some(d) ==> d.recipient() == decrypt::ed25519_public(key->Ok_0) && d.secret()
            == decrypt::clamped(decrypt::ed25519_scalar(key->Ok_0)),
        g.uncle_sink matches Some(s) ==> s.dir() == config.outbound.uncle->0.outbox_path@,
        g.skip_list matches Some(l) ==> l.source() == config.skip_list_path->0@ && l.target()
            == config.skipped_dir_path->0@,
        config.lambda is Tcp && config.lambda->tls_server_name is None ==> g.lambda.spec_mode()->ca_certs is None,
        config.lambda is Tcp && config.lambda->tls_server_name is Some ==> lambda_client::has_certs(
            g.lambda.spec_mode()->ca_certs,
            payload::opt(config.lambda->tls_ca_cert_path),
            ca,
        ),
        g.stats.messages_received == 0 && g.stats.messages_processed == 0 && g.stats.messages_failed == 0,
        g.stats.tcp_connections == 0 && g.stats.tcp_rate_limited == 0 && g.stats.emails_sent == 0,
        g.stats.lambda_requests == 0 && g.stats.lambda_errors == 0 && g.stats.avg_witness_ms == 0,
        g.stats.busy_rejections == 0 && g.stats.rate_limited == 0 && g.stats.ban_rejected == 0,
        g.stats.decrypt_fail == 0 && g.stats.parse_fail == 0 && g.stats.oversize_dropped == 0,
        g.stats.skipped_dir_count == 0 && g.stats.active_carriers@.len() == 0,
        g.wallet_rate_limiter.known() == 0,
{
}


/// The limits: mails of up to eight mebibytes are taken in, a wallet pauses for two seconds,
/// and a hundred wallets are remembered before old ones are forgotten.
pub proof fn law_limits_of_the_gateway()
    ensures
        MAX_MESSAGE_BYTES == 8 * 1024 * 1024,
        DEFAULT_COOLDOWN_MS == 2 * 1000,
        EVICTION_SIZE == 100,
{
}

} // verus!
