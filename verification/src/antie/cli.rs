//! What the gateway's command line asks for.
use vstd::prelude::*;
use crate::antie::carrier::{CarriersConfig, MaildirConfig};
use crate::antie::config;
use crate::antie::config::{AntieConfig, LambdaConfig};
use crate::paths;
use crate::paths::join_path;

verus! {

/// The examples of a configuration.
#[derive(Debug, Clone, Copy, PartialEq, Eq, Structural)]
pub enum Example {
    Imap,
    Pop3,
    Advertise,
    AllCarriers,
    Plain,
}

/// The example that the options ask for; the first one given decides.
pub fn pick_example(imap: bool, pop3: bool, tcp: bool, all: bool) -> (r: Example)
    ensures
        r == (if imap {
            Example::Imap
        } else if pop3 {
            Example::Pop3
        } else if tcp {
            Example::Advertise
        } else if all {
            Example::AllCarriers
        } else {
            Example::Plain
        }),
{
    if imap {
        Example::Imap
    } else if pop3 {
        Example::Pop3
    } else if tcp {
        Example::Advertise
    } else if all {
        Example::AllCarriers
    } else {
        Example::Plain
    }
}

/// The ledger service at the address that the command line gives.
pub fn lambda_override(address: String) -> (r: LambdaConfig)
    ensures
        r == (LambdaConfig::Tcp {
            address,
            timeout_secs: 30,
            tls_server_name: None,
            tls_ca_cert_path: None,
        }),
{
    LambdaConfig::Tcp { address, timeout_secs: 30, tls_server_name: None, tls_ca_cert_path: None }
}

/// The places where the ledger service's program is looked for.
pub open spec fn lambda_places() -> Seq<Seq<char>> {
    seq![
        "./axiom-lambda/target/release/lambda"@,
        "../axiom-lambda/target/release/lambda"@,
        "./target/release/lambda"@,
    ]
}

/// Where the ledger service's program is, given which of the places have it.
pub fn lambda_binary(first: bool, second: bool, third: bool) -> (r: String)
    ensures
        r@ == (if first {
            lambda_places()[0]
        } else if second {
            lambda_places()[1]
        } else if third {
            lambda_places()[2]
        } else {
            "./axiom-lambda/target/debug/lambda"@
        }),
{
    if first {
        String::from_str("./axiom-lambda/target/release/lambda")
    } else if second {
        String::from_str("../axiom-lambda/target/release/lambda")
    } else if third {
        String::from_str("./target/release/lambda")
    } else {
        String::from_str("./axiom-lambda/target/debug/lambda")
    }
}

/// The configuration for new mail directories below a path: mail comes in by them, and the
/// ledger service runs as a process of its own.
pub fn init_maildir(path: &str, lambda_path: String) -> (r: AntieConfig)
    ensures
        config::is_maildir(
            r.carriers.maildir,
            paths::joined(path@, "inbox"@),
            paths::joined(path@, "outbox"@),
        ),
        r.carriers.imap is None,
        r.carriers.pop3 is None,
        r.carriers.advertise@.len() == 0,
        r.outbound.smtp is None,
        r.outbound.uncle is None,
        r.lambda matches LambdaConfig::Subprocess { binary_path, config_path } && binary_path == lambda_path
            && config_path@ == "../config/lambda-config.toml"@,
        exists|c: AntieConfig| #[trigger] config::is_plain(c) && (AntieConfig { lambda: c.lambda, ..r }) == (
        AntieConfig { carriers: r.carriers, outbound: r.outbound, ..c }),
{
    let mut c = AntieConfig::default();
    let ghost plain = c;
    c.carriers = CarriersConfig {
        maildir: Some(
            MaildirConfig { inbox: join_path(path, "inbox"), outbox: join_path(path, "outbox") },
        ),
        imap: None,
        pop3: None,
        advertise: Vec::new(),
    };
    c.lambda = LambdaConfig::Subprocess {
        binary_path: lambda_path,
        config_path: String::from_str("../config/lambda-config.toml"),
    };
    assert(config::is_plain(plain));
    c
}


/// The places where the program is looked for, in their order.
pub proof fn law_places_are_these()
    ensures
        lambda_places().len() == 3,
        lambda_places()[0] == "./axiom-lambda/target/release/lambda"@,
        lambda_places()[1] == "../axiom-lambda/target/release/lambda"@,
        lambda_places()[2] == "./target/release/lambda"@,
{
}

} // verus!
