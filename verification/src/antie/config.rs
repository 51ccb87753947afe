//! The gateway's configuration.
use vstd::prelude::*;
use vstd::utf8::*;
use crate::antie::carrier::{CarriersConfig, ImapConfig, MaildirConfig, Pop3Config};
use crate::antie::error::{AntieError, ErrorView};
use crate::antie::payload;
use crate::text;

verus! {

/// The server that answers are sent by.
pub struct SmtpOutboundConfig {
    pub server: String,
    pub port: u16,
    pub username: Option<String>,
    pub password: Option<String>,
    pub use_tls: bool,
    pub from_address: String,
}

/// Where answers go.
pub struct OutboundConfig {
    pub smtp: Option<SmtpOutboundConfig>,
    pub uncle: Option<UncleSinkConfig>,
}

/// The directory that a sibling carrier takes copies of answers from.
pub struct UncleSinkConfig {
    pub outbox_path: String,
}

impl Default for OutboundConfig {
    fn default() -> (r: Self)
        ensures
            r.smtp is None,
            r.uncle is None,
    {
        OutboundConfig { smtp: None, uncle: None }
    }
}

impl Default for UncleSinkConfig {
    fn default() -> (r: Self)
        ensures
            r.outbox_path@.len() == 0,
    {
        UncleSinkConfig { outbox_path: String::new() }
    }
}

/// When requests are turned away, and how the load is learnt.
pub struct PerformanceConfig {
    /// The longest wait, in milliseconds, that a request may have before it; zero for any.
    pub busy_threshold_ms: u64,
    /// How often the ledger service is asked for its load, in milliseconds.
    pub lambda_stats_poll_ms: u64,
    /// The port at which it answers.
    pub lambda_admin_port: u16,
    /// The token it asks for.
    pub lambda_admin_token: Option<String>,
}

impl Default for PerformanceConfig {
    fn default() -> (r: Self)
        ensures
            r.busy_threshold_ms == 15_000,
            r.lambda_stats_poll_ms == 5_000,
            r.lambda_admin_port == 7780,
            r.lambda_admin_token is None,
    {
        PerformanceConfig {
            busy_threshold_ms: 15_000,
            lambda_stats_poll_ms: 5_000,
            lambda_admin_port: 7780,
            lambda_admin_token: None,
        }
    }
}

/// The validator's keys and identity.
pub struct ValidatorConfig {
    /// Its SPHINCS+ public key, in hexadecimal.
    pub public_key_hex: String,
    /// Its Dilithium public key, in hexadecimal.
    pub dilithium_pk_hex: String,
    /// Its name.
    pub validator_id: String,
    /// Where its certificate is.
    pub vbc_path: Option<String>,
    /// Where its Ed25519 seed is.
    pub private_key_path: Option<String>,
}

impl Default for ValidatorConfig {
    fn default() -> (r: Self)
        ensures
            r.public_key_hex@.len() == 0,
            r.dilithium_pk_hex@.len() == 0,
            r.validator_id@ == "validator@axiom.local"@,
            r.vbc_path is None,
            r.private_key_path is None,
    {
        ValidatorConfig {
            public_key_hex: String::new(),
            dilithium_pk_hex: String::new(),
            validator_id: String::from_str("validator@axiom.local"),
            vbc_path: None,
            private_key_path: None,
        }
    }
}

/// The bytes of hexadecimal text, if it is that.
pub open spec fn decoded(s: Seq<char>) -> Option<Seq<u8>> {
    if text::is_hex(s) {
        Some(text::hex_bytes(s))
    } else {
        None
    }
}

/// The bytes of hexadecimal text, if it is that.
fn decode(s: &str) -> (r: Option<Vec<u8>>)
    ensures
        payload::opt(r) == decoded(s@),
{
    match text::hex_decode(s) {
        Ok(b) => Some(b),
        Err(_) => None,
    }
}

impl ValidatorConfig {
    /// Whether a key is given: 64 bytes of text.
    pub open spec fn keyed(self) -> bool {
        encode_utf8(self.public_key_hex@).len() == 64
    }

    /// Whether a key is given.
    pub fn has_key(&self) -> (r: bool)
        ensures
            r == self.keyed(),
    {
        self.public_key_hex.as_str().as_bytes().len() == 64
    }

    /// The SPHINCS+ public key, if it is given and well-formed.
    pub fn public_key_bytes(&self) -> (r: Option<Vec<u8>>)
        ensures
            payload::opt(r) == (if self.keyed() {
                decoded(self.public_key_hex@)
            } else {
                None
            }),
    {
        if !self.has_key() {
            return None;
        }
        decode(self.public_key_hex.as_str())
    }

    /// The Dilithium public key, if it is given and well-formed.
    pub fn dilithium_pk_bytes(&self) -> (r: Option<Vec<u8>>)
        ensures
            payload::opt(r) == (if self.dilithium_pk_hex@.len() > 0 {
                decoded(self.dilithium_pk_hex@)
            } else {
                None
            }),
    {
        if self.dilithium_pk_hex.as_str().is_empty() {
            return None;
        }
        decode(self.dilithium_pk_hex.as_str())
    }
}

/// A validator's certificate as its file gives it, keys in hexadecimal.
pub struct VBCFile {
    pub version: Option<u8>,
    pub subject_pubkey_sphincs_hex: String,
    pub subject_pubkey_dilithium_hex: String,
    pub subject_pubkey_ed25519_hex: String,
    pub pgp_fingerprint_hex: Option<String>,
    pub issuer_set: Vec<String>,
    pub signatures: Vec<String>,
    pub issued_at: u64,
    pub expires_at: u64,
    pub chain_depth: Option<u8>,
    pub founding_vbc_hash: Option<String>,
}

/// A certificate whose file gives no end has none.
pub fn default_expires() -> (r: u64)
    ensures
        r == u64::MAX,
{
    u64::MAX
}

impl Default for VBCFile {
    fn default() -> (r: Self)
        ensures
            r.version is None,
            r.subject_pubkey_sphincs_hex@.len() == 0,
            r.subject_pubkey_dilithium_hex@.len() == 0,
            r.subject_pubkey_ed25519_hex@.len() == 0,
            r.pgp_fingerprint_hex is None,
            r.issuer_set@.len() == 0,
            r.signatures@.len() == 0,
            r.issued_at == 0,
            r.expires_at == u64::MAX,
            r.chain_depth is None,
            r.founding_vbc_hash is None,
    {
        VBCFile {
            version: None,
            subject_pubkey_sphincs_hex: String::new(),
            subject_pubkey_dilithium_hex: String::new(),
            subject_pubkey_ed25519_hex: String::new(),
            pgp_fingerprint_hex: None,
            issuer_set: Vec::new(),
            signatures: Vec::new(),
            issued_at: 0,
            expires_at: default_expires(),
            chain_depth: None,
            founding_vbc_hash: None,
        }
    }
}

/// A validator's certificate.
pub struct Vbc {
    pub version: u8,
    pub network_size_baseline: u64,
    pub baseline_tick: u64,
    pub subject_pubkey_sphincs: Vec<u8>,
    pub subject_pubkey_dilithium: Vec<u8>,
    pub subject_pubkey_ed25519: Vec<u8>,
    pub pgp_fingerprint: Vec<u8>,
    pub node_name: String,
    pub proof_cap: String,
    pub issued_at: u64,
    pub expires_at: u64,
    pub chain_depth: u8,
    pub issuer_set: Vec<Vec<u8>>,
    pub signatures: Vec<Vec<u8>>,
    pub max_tx: u64,
    pub founding_vbc_hash: [u8; 32],
}

/// The bytes of hexadecimal text; none if it is not that.
pub open spec fn decoded_or_empty(s: Seq<char>) -> Seq<u8> {
    match decoded(s) {
        Some(b) => b,
        None => Seq::empty(),
    }
}

/// The bytes of hexadecimal text; none if it is not that.
fn decode_or_empty(s: &str) -> (r: Vec<u8>)
    ensures
        r@ == decoded_or_empty(s@),
{
    match decode(s) {
        Some(b) => b,
        None => Vec::new(),
    }
}

/// The bytes of those of the texts that are hexadecimal, in their order.
pub open spec fn decoded_all(list: Seq<Seq<char>>) -> Seq<Seq<u8>>
    decreases list.len(),
{
    if list.len() == 0 {
        Seq::empty()
    } else {
        match decoded(list.last()) {
            Some(b) => decoded_all(list.drop_last()).push(b),
            None => decoded_all(list.drop_last()),
        }
    }
}

/// What a list of byte strings stands for.
pub open spec fn byte_strings(v: Seq<Vec<u8>>) -> Seq<Seq<u8>> {
    Seq::new(v.len(), |i: int| v[i]@)
}

/// The bytes of those of the texts that are hexadecimal, in their order.
fn decode_all(list: &Vec<String>) -> (r: Vec<Vec<u8>>)
    ensures
        byte_strings(r@) == decoded_all(text::views(list@)),
{
    let ghost all = text::views(list@);
    let mut out: Vec<Vec<u8>> = Vec::new();
    let mut i: usize = 0;
    assert(byte_strings(out@) == decoded_all(all.take(0)));
    while i < list.len()
        invariant
            i <= list@.len(),
            all == text::views(list@),
            byte_strings(out@) == decoded_all(all.take(i as int)),
        decreases list@.len() - i,
    {
        let ghost before = byte_strings(out@);
        proof {
            assert(all.take(i + 1).drop_last() == all.take(i as int));
            assert(all.take(i + 1).last() == list@[i as int]@);
        }
        if let Some(b) = decode(list[i].as_str()) {
            out.push(b);
            assert(byte_strings(out@) == before.push(b@));
        }
        i = i + 1;
    }
    assert(all.take(all.len() as int) == all);
    out
}

/// The hash that hexadecimal text of 32 bytes gives; zeros for anything else.
pub open spec fn hash_of(h: Option<Seq<char>>) -> Seq<u8> {
    match h {
        Some(s) => match decoded(s) {
            Some(b) => if b.len() == 32 {
                b
            } else {
                Seq::new(32, |i: int| 0u8)
            },
            None => Seq::new(32, |i: int| 0u8),
        },
        None => Seq::new(32, |i: int| 0u8),
    }
}

/// The hash that hexadecimal text of 32 bytes gives; zeros for anything else.
fn read_hash(h: &Option<String>) -> (r: [u8; 32])
    ensures
        r@ == hash_of(payload::opt(*h)),
{
    let mut out: [u8; 32] = [0u8;32];
    assert(out@ == Seq::new(32, |i: int| 0u8));
    if let Some(s) = h {
        if let Some(b) = decode(s.as_str()) {
            if b.len() == 32 {
                let mut i: usize = 0;
                while i < 32
                    invariant
                        i <= 32,
                        b@.len() == 32,
                        out@.len() == 32,
                        forall|k: int| 0 <= k < i ==> out@[k] == b@[k],
                    decreases 32 - i,
                {
                    out[i] = b[i];
                    i = i + 1;
                }
                assert(out@ == b@);
            }
        }
    }
    out
}

/// The certificate that a file gives. What is not hexadecimal is left empty, or left out of
/// the lists.
pub fn load_vbc(file: &VBCFile) -> (r: Vbc)
    ensures
        r.version == (match file.version {
            Some(v) => v,
            None => 9u8,
        }),
        r.network_size_baseline == 0,
        r.baseline_tick == 0,
        r.subject_pubkey_sphincs@ == decoded_or_empty(file.subject_pubkey_sphincs_hex@),
        r.subject_pubkey_dilithium@ == decoded_or_empty(file.subject_pubkey_dilithium_hex@),
        r.subject_pubkey_ed25519@ == decoded_or_empty(file.subject_pubkey_ed25519_hex@),
        r.pgp_fingerprint@ == (match file.pgp_fingerprint_hex {
            Some(h) => decoded_or_empty(h@),
            None => Seq::<u8>::empty(),
        }),
        r.node_name@.len() == 0,
        r.proof_cap@.len() == 0,
        r.issued_at == file.issued_at,
        r.expires_at == file.expires_at,
        r.chain_depth == (match file.chain_depth {
            Some(d) => d,
            None => 0u8,
        }),
        byte_strings(r.issuer_set@) == decoded_all(text::views(file.issuer_set@)),
        byte_strings(r.signatures@) == decoded_all(text::views(file.signatures@)),
        r.max_tx == 0,
        r.founding_vbc_hash@ == hash_of(payload::opt(file.founding_vbc_hash)),
{
    Vbc {
        version: match file.version {
            Some(v) => v,
            None => 9,
        },
        network_size_baseline: 0,
        baseline_tick: 0,
        subject_pubkey_sphincs: decode_or_empty(file.subject_pubkey_sphincs_hex.as_str()),
        subject_pubkey_dilithium: decode_or_empty(file.subject_pubkey_dilithium_hex.as_str()),
        subject_pubkey_ed25519: decode_or_empty(file.subject_pubkey_ed25519_hex.as_str()),
        pgp_fingerprint: match &file.pgp_fingerprint_hex {
            Some(h) => decode_or_empty(h.as_str()),
            None => Vec::new(),
        },
        node_name: String::new(),
        proof_cap: String::new(),
        issued_at: file.issued_at,
        expires_at: file.expires_at,
        chain_depth: match file.chain_depth {
            Some(d) => d,
            None => 0,
        },
        issuer_set: decode_all(&file.issuer_set),
        signatures: decode_all(&file.signatures),
        max_tx: 0,
        founding_vbc_hash: read_hash(&file.founding_vbc_hash),
    }
}

/// The validator's core.
pub struct CoreConfig {
    /// A file that the core is looked for beside.
    pub core_bin_path: Option<String>,
    /// Where the core is.
    pub avm_elf_path: Option<String>,
    pub use_embedded_avm: bool,
}

impl Default for CoreConfig {
    fn default() -> (r: Self)
        ensures
            r.core_bin_path is None,
            r.avm_elf_path is None,
            r.use_embedded_avm,
    {
        CoreConfig { core_bin_path: None, avm_elf_path: None, use_embedded_avm: true }
    }
}

/// How the ledger service is reached.
pub enum LambdaConfig {
    /// At an address, secured if a server name is given.
    Tcp {
        address: String,
        timeout_secs: u64,
        tls_server_name: Option<String>,
        tls_ca_cert_path: Option<String>,
    },
    /// As a process of its own.
    Subprocess { binary_path: String, config_path: String },
}

impl Default for LambdaConfig {
    fn default() -> (r: Self)
        ensures
            r matches LambdaConfig::Subprocess { binary_path, config_path } && binary_path@
                == "./axiom-lambda/target/release/lambda"@ && config_path@
                == "./config/lambda-config.toml"@,
    {
        LambdaConfig::Subprocess {
            binary_path: String::from_str("./axiom-lambda/target/release/lambda"),
            config_path: String::from_str("./config/lambda-config.toml"),
        }
    }
}

/// Who the gateway is.
pub struct IdentityConfig {
    pub email: String,
    pub name: String,
}

impl Default for IdentityConfig {
    fn default() -> (r: Self)
        ensures
            r.email@ == "validator@axiom.local"@,
            r.name@ == "AXIOM Validator"@,
    {
        IdentityConfig {
            email: String::from_str("validator@axiom.local"),
            name: String::from_str("AXIOM Validator"),
        }
    }
}

/// How much is logged.
pub struct LoggingConfig {
    pub level: String,
}

impl Default for LoggingConfig {
    fn default() -> (r: Self)
        ensures
            r.level@ == "info"@,
    {
        LoggingConfig { level: String::from_str("info") }
    }
}

/// The gateway's configuration.
pub struct AntieConfig {
    pub carriers: CarriersConfig,
    pub outbound: OutboundConfig,
    pub core: CoreConfig,
    pub lambda: LambdaConfig,
    pub validator: ValidatorConfig,
    pub identity: IdentityConfig,
    pub logging: LoggingConfig,
    pub poll_interval_ms: u64,
    pub health_port: u16,
    pub health_token: Option<String>,
    pub performance: PerformanceConfig,
    pub wallet_witness_cooldown_ms: Option<u64>,
    pub nabla_ban_list_path: Option<String>,
    pub skip_list_path: Option<String>,
    pub skipped_dir_path: Option<String>,
}

/// Whether all but the carriers is as it is when nothing is configured.
pub open spec fn is_plain(c: AntieConfig) -> bool {
    &&& c.core.core_bin_path is None
    &&& c.core.avm_elf_path is None
    &&& c.core.use_embedded_avm
    &&& c.lambda matches LambdaConfig::Subprocess { binary_path, config_path } && binary_path@
        == "./axiom-lambda/target/release/lambda"@ && config_path@ == "./config/lambda-config.toml"@
    &&& c.validator.public_key_hex@.len() == 0
    &&& c.validator.dilithium_pk_hex@.len() == 0
    &&& c.validator.validator_id@ == "validator@axiom.local"@
    &&& c.validator.vbc_path is None
    &&& c.validator.private_key_path is None
    &&& c.identity.email@ == "validator@axiom.local"@
    &&& c.identity.name@ == "AXIOM Validator"@
    &&& c.logging.level@ == "info"@
    &&& c.poll_interval_ms == 10
    &&& c.health_port == 7779
    &&& c.health_token is None
    &&& c.performance.busy_threshold_ms == 15_000
    &&& c.performance.lambda_stats_poll_ms == 5_000
    &&& c.performance.lambda_admin_port == 7780
    &&& c.performance.lambda_admin_token is None
    &&& c.wallet_witness_cooldown_ms is None
    &&& c.nabla_ban_list_path is None
    &&& c.skip_list_path is None
    &&& c.skipped_dir_path is None
}

/// Whether mail comes in by the given directories.
pub open spec fn is_maildir(m: Option<MaildirConfig>, inbox: Seq<char>, outbox: Seq<char>) -> bool {
    m matches Some(d) && d.inbox@ == inbox && d.outbox@ == outbox
}

/// Whether mail comes in by the IMAP server of the examples.
pub open spec fn is_imap(m: Option<ImapConfig>, user: Seq<char>, password: Seq<char>) -> bool {
    m matches Some(i) && i.server@ == "imap.example.com"@ && i.port == 993 && i.username@ == user
        && i.password@ == password && i.use_tls && i.inbox_folder@ == "INBOX"@ && i.processed_folder@
        == "INBOX.Processed"@
}

/// Whether mail comes in by the POP3 server of the examples.
pub open spec fn is_pop3(m: Option<Pop3Config>, user: Seq<char>, password: Seq<char>) -> bool {
    m matches Some(p) && p.server@ == "pop.example.com"@ && p.port == 995 && p.username@ == user
        && p.password@ == password && p.use_tls
}

/// Whether answers are sent by the server of the examples.
pub open spec fn is_smtp(
    m: Option<SmtpOutboundConfig>,
    user: Option<Seq<char>>,
    password: Option<Seq<char>>,
    from: Seq<char>,
) -> bool {
    m matches Some(s) && s.server@ == "smtp.example.com"@ && s.port == 587 && payload::opt(s.username)
        == user && payload::opt(s.password) == password && s.use_tls && s.from_address@ == from
}

/// The addresses that the examples make known.
pub open spec fn example_addresses() -> Seq<Seq<char>> {
    seq!["fatmama:fatmama.example.com:2525"@, "tot:axiom-dev.mooo.com:7400"@]
}

fn maildir_at(inbox: &str, outbox: &str) -> (r: Option<MaildirConfig>)
    ensures
        is_maildir(r, inbox@, outbox@),
{
    Some(MaildirConfig { inbox: String::from_str(inbox), outbox: String::from_str(outbox) })
}

fn imap_example(user: &str, password: &str) -> (r: Option<ImapConfig>)
    ensures
        is_imap(r, user@, password@),
{
    Some(
        ImapConfig {
            server: String::from_str("imap.example.com"),
            port: 993,
            username: String::from_str(user),
            password: String::from_str(password),
            use_tls: true,
            inbox_folder: String::from_str("INBOX"),
            processed_folder: String::from_str("INBOX.Processed"),
        },
    )
}

fn pop3_example(user: &str, password: &str) -> (r: Option<Pop3Config>)
    ensures
        is_pop3(r, user@, password@),
{
    Some(
        Pop3Config {
            server: String::from_str("pop.example.com"),
            port: 995,
            username: String::from_str(user),
            password: String::from_str(password),
            use_tls: true,
        },
    )
}

fn smtp_example(username: Option<String>, password: Option<String>, from: &str) -> (r: Option<
    SmtpOutboundConfig,
>)
    ensures
        is_smtp(r, payload::opt(username), payload::opt(password), from@),
{
    Some(
        SmtpOutboundConfig {
            server: String::from_str("smtp.example.com"),
            port: 587,
            username,
            password,
            use_tls: true,
            from_address: String::from_str(from),
        },
    )
}

fn addresses() -> (r: Vec<String>)
    ensures
        text::views(r@) == example_addresses(),
{
    let mut v: Vec<String> = Vec::new();
    v.push(String::from_str("fatmama:fatmama.example.com:2525"));
    v.push(String::from_str("tot:axiom-dev.mooo.com:7400"));
    assert(text::views(v@) == example_addresses());
    v
}

impl Default for AntieConfig {
    fn default() -> (r: Self)
        ensures
            is_plain(r),
            is_maildir(r.carriers.maildir, "./maildir/inbox"@, "./maildir/outbox"@),
            r.carriers.imap is None,
            r.carriers.pop3 is None,
            r.carriers.advertise@.len() == 0,
            r.outbound.smtp is None,
            r.outbound.uncle is None,
    {
        AntieConfig {
            carriers: CarriersConfig {
                maildir: maildir_at("./maildir/inbox", "./maildir/outbox"),
                imap: None,
                pop3: None,
                advertise: Vec::new(),
            },
            outbound: OutboundConfig::default(),
            core: CoreConfig::default(),
            lambda: LambdaConfig::default(),
            validator: ValidatorConfig::default(),
            identity: IdentityConfig::default(),
            logging: LoggingConfig::default(),
            poll_interval_ms: 10,
            health_port: 7779,
            health_token: None,
            performance: PerformanceConfig::default(),
            wallet_witness_cooldown_ms: None,
            nabla_ban_list_path: None,
            skip_list_path: None,
            skipped_dir_path: None,
        }
    }
}

impl AntieConfig {
    /// Takes a configuration that was read, or what was wrong with its text. It must have a
    /// way for mail to come in.
    pub fn load(parsed: Result<AntieConfig, String>) -> (r: Result<AntieConfig, AntieError>)
        ensures
            match parsed {
                Err(m) => r matches Err(e) && e@ == ErrorView::ConfigError(m@),
                Ok(c) => {
                    &&& r is Ok <==> c.carriers.takes_mail()
                    &&& r matches Ok(got) ==> got == c
                    &&& r matches Err(e) ==> e@ == ErrorView::ConfigError(
                        "at least one email carrier (maildir, imap, or pop3) must be configured — tcp alone is not valid; email is required for fan-out"@,
                    )
                },
            },
    {
        match parsed {
            Err(m) => Err(AntieError::ConfigError(m)),
            Ok(c) => match c.carriers.validate() {
                Ok(_) => Ok(c),
                Err(e) => Err(e),
            },
        }
    }

    /// The configuration to start from: mail directories only.
    pub fn generate_default() -> (r: AntieConfig)
        ensures
            is_plain(r),
            is_maildir(r.carriers.maildir, "./maildir/inbox"@, "./maildir/outbox"@),
            r.carriers.imap is None,
            r.carriers.pop3 is None,
            r.carriers.advertise@.len() == 0,
            r.outbound.smtp is None,
            r.outbound.uncle is None,
    {
        AntieConfig::default()
    }

    /// An example with IMAP and SMTP.
    pub fn generate_imap_example() -> (r: AntieConfig)
        ensures
            is_plain(r),
            r.carriers.maildir is None,
            is_imap(r.carriers.imap, "validator@example.com"@, "your-password"@),
            r.carriers.pop3 is None,
            r.carriers.advertise@.len() == 0,
            is_smtp(
                r.outbound.smtp,
                Some("validator@example.com"@),
                Some("your-password"@),
                "validator@example.com"@,
            ),
            r.outbound.uncle is None,
    {
        let mut c = AntieConfig::default();
        c.carriers = CarriersConfig {
            maildir: None,
            imap: imap_example("validator@example.com", "your-password"),
            pop3: None,
            advertise: Vec::new(),
        };
        c.outbound = OutboundConfig {
            smtp: smtp_example(
                Some(String::from_str("validator@example.com")),
                Some(String::from_str("your-password")),
                "validator@example.com",
            ),
            uncle: None,
        };
        c
    }

    /// An example with POP3 and SMTP.
    pub fn generate_pop3_example() -> (r: AntieConfig)
        ensures
            is_plain(r),
            r.carriers.maildir is None,
            r.carriers.imap is None,
            is_pop3(r.carriers.pop3, "validator@example.com"@, "your-password"@),
            r.carriers.advertise@.len() == 0,
            is_smtp(
                r.outbound.smtp,
                Some("validator@example.com"@),
                Some("your-password"@),
                "validator@example.com"@,
            ),
            r.outbound.uncle is None,
    {
        let mut c = AntieConfig::default();
        c.carriers = CarriersConfig {
            maildir: None,
            imap: None,
            pop3: pop3_example("validator@example.com", "your-password"),
            advertise: Vec::new(),
        };
        c.outbound = OutboundConfig {
            smtp: smtp_example(
                Some(String::from_str("validator@example.com")),
                Some(String::from_str("your-password")),
                "validator@example.com",
            ),
            uncle: None,
        };
        c
    }

    /// An example with mail directories and addresses of other carriers.
    pub fn generate_advertise_example() -> (r: AntieConfig)
        ensures
            is_plain(r),
            is_maildir(r.carriers.maildir, "/var/mail/axiom/inbox"@, "/var/mail/axiom/outbox"@),
            r.carriers.imap is None,
            r.carriers.pop3 is None,
            text::views(r.carriers.advertise@) == example_addresses(),
            r.outbound.smtp is None,
            r.outbound.uncle is None,
    {
        let mut c = AntieConfig::default();
        c.carriers = CarriersConfig {
            maildir: maildir_at("/var/mail/axiom/inbox", "/var/mail/axiom/outbox"),
            imap: None,
            pop3: None,
            advertise: addresses(),
        };
        c
    }

    /// An example with all carriers.
    pub fn generate_all_carriers_example() -> (r: AntieConfig)
        ensures
            is_plain(r),
            is_maildir(r.carriers.maildir, "/var/mail/axiom/inbox"@, "/var/mail/axiom/outbox"@),
            is_imap(r.carriers.imap, "node@example.com"@, "secret"@),
            is_pop3(r.carriers.pop3, "node@example.com"@, "secret"@),
            text::views(r.carriers.advertise@) == example_addresses(),
            is_smtp(r.outbound.smtp, None, None, "node@example.com"@),
            r.outbound.uncle is None,
    {
        let mut c = AntieConfig::default();
        c.carriers = CarriersConfig {
            maildir: maildir_at("/var/mail/axiom/inbox", "/var/mail/axiom/outbox"),
            imap: imap_example("node@example.com", "secret"),
            pop3: pop3_example("node@example.com", "secret"),
            advertise: addresses(),
        };
        c.outbound = OutboundConfig { smtp: smtp_example(None, None, "node@example.com"), uncle: None };
        c
    }
}


/// Bytes in hexadecimal text are read back, and what is read has two digits for each byte.
pub proof fn law_keys_read_back(b: Seq<u8>, s: Seq<char>)
    ensures
        decoded(text::hex_text(b)) == Some(b),
        decoded_or_empty(text::hex_text(b)) == b,
        decoded(s) matches Some(d) ==> 2 * d.len() == s.len(),
        decoded(s) is Some <==> text::is_hex(s),
        decoded(s) is None ==> decoded_or_empty(s) == Seq::<u8>::empty(),
{
    text::lemma_hex_round_trip(b);
}

/// A list is read part by part, and what is not hexadecimal is left out of it.
pub proof fn law_list_is_read_part_by_part(a: Seq<Seq<char>>, b: Seq<Seq<char>>, bytes: Seq<u8>, other: Seq<char>)
    requires
        !text::is_hex(other),
    ensures
        decoded_all(a + b) == decoded_all(a) + decoded_all(b),
        decoded_all(seq![text::hex_text(bytes)]) == seq![bytes],
        decoded_all(seq![other]) == Seq::<Seq<u8>>::empty(),
    decreases b.len(),
{
    text::lemma_hex_round_trip(bytes);
    reveal_with_fuel(decoded_all, 2);
    let one = seq![text::hex_text(bytes)];
    assert(one.drop_last() == Seq::<Seq<char>>::empty());
    assert(decoded_all(one) =~= seq![bytes]);
    assert(seq![other].drop_last() == Seq::<Seq<char>>::empty());
    if b.len() == 0 {
        assert(a + b =~= a);
        assert(decoded_all(a) + decoded_all(b) =~= decoded_all(a));
    } else {
        law_list_is_read_part_by_part(a, b.drop_last(), bytes, other);
        assert((a + b).drop_last() =~= a + b.drop_last());
        assert((a + b).last() == b.last());
        assert(decoded_all(a + b) =~= decoded_all(a) + decoded_all(b));
    }
}

/// A hash always has its length. It is the one given, or zeros where none of that length is.
pub proof fn law_hash_has_its_length(h: Seq<u8>, given: Option<Seq<char>>)
    ensures
        hash_of(given).len() == 32,
        h.len() == 32 ==> hash_of(Some(text::hex_text(h))) == h,
        h.len() != 32 ==> hash_of(Some(text::hex_text(h))) == hash_of(None),
        forall|i: int| 0 <= i < 32 ==> #[trigger] hash_of(None)[i] == 0,
        given is Some && !text::is_hex(given->0) ==> hash_of(given) == hash_of(None),
{
    text::lemma_hex_round_trip(h);
}

/// What a configuration says where nothing else is chosen.
pub proof fn law_plain_configuration(c: AntieConfig)
    requires
        is_plain(c),
    ensures
        c.poll_interval_ms == 10,
        c.health_port == 7779,
        c.health_token is None,
        c.performance.busy_threshold_ms == 15_000,
        c.performance.lambda_stats_poll_ms == 5_000,
        c.performance.lambda_admin_port == 7780,
        c.performance.lambda_admin_token is None,
        c.wallet_witness_cooldown_ms is None,
        c.nabla_ban_list_path is None,
        c.skip_list_path is None,
        c.skipped_dir_path is None,
        c.core.use_embedded_avm,
        c.core.core_bin_path is None,
        c.core.avm_elf_path is None,
        c.lambda is Subprocess,
        c.lambda->binary_path@ == "./axiom-lambda/target/release/lambda"@,
        c.lambda->config_path@ == "./config/lambda-config.toml"@,
        c.validator.validator_id@ == "validator@axiom.local"@,
        c.identity.email@ == "validator@axiom.local"@,
        c.identity.name@ == "AXIOM Validator"@,
        c.logging.level@ == "info"@,
        !c.validator.keyed(),
        c.validator.vbc_path is None,
        c.validator.private_key_path is None,
{
    assert(c.validator.public_key_hex@ =~= Seq::<char>::empty());
    assert(encode_utf8(Seq::<char>::empty()).len() == 0) by {
        reveal_with_fuel(encode_utf8, 1);
    }
}

/// The servers of the examples: their names and ports, all of them over TLS.
pub proof fn law_example_servers(
    i: Option<ImapConfig>,
    p: Option<Pop3Config>,
    s: Option<SmtpOutboundConfig>,
    m: Option<MaildirConfig>,
    user: Seq<char>,
    password: Seq<char>,
    sender: Option<Seq<char>>,
    secret: Option<Seq<char>>,
    from: Seq<char>,
    outbox: Seq<char>,
)
    ensures
        is_imap(i, user, password) ==> i is Some && i->0.server@ == "imap.example.com"@ && i->0.port == 993
            && i->0.use_tls && i->0.username@ == user && i->0.password@ == password && i->0.inbox_folder@
            == "INBOX"@ && i->0.processed_folder@ == "INBOX.Processed"@,
        is_pop3(p, user, password) ==> p is Some && p->0.server@ == "pop.example.com"@ && p->0.port == 995
            && p->0.use_tls && p->0.username@ == user && p->0.password@ == password,
        is_smtp(s, sender, secret, from) ==> s is Some && s->0.server@ == "smtp.example.com"@ && s->0.port == 587
            && s->0.use_tls && payload::opt(s->0.username) == sender && payload::opt(s->0.password) == secret
            && s->0.from_address@ == from,
        is_maildir(m, from, outbox) ==> m is Some && m->0.inbox@ == from && m->0.outbox@ == outbox,
        example_addresses() == seq!["fatmama:fatmama.example.com:2525"@, "tot:axiom-dev.mooo.com:7400"@],
{
}

} // verus!
