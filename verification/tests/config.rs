use axiom_carriers::antie::carrier::CarriersConfig;
use axiom_carriers::antie::cli::{init_maildir, lambda_binary, lambda_override, pick_example, Example};
use axiom_carriers::antie::config::{
    default_expires, load_vbc, AntieConfig, LambdaConfig, PerformanceConfig, VBCFile, ValidatorConfig,
};

#[test]
fn config_needs_a_way_in() {
    assert!(AntieConfig::load(Ok(AntieConfig::generate_default())).is_ok());
    let none = AntieConfig { carriers: CarriersConfig::default(), ..AntieConfig::generate_default() };
    assert!(AntieConfig::load(Ok(none)).is_err());
    match AntieConfig::load(Err("bad toml".into())) {
        Ok(_) => panic!("unreadable"),
        Err(e) => assert_eq!(e.to_text(), "Config error: bad toml"),
    }
}

#[test]
fn default_settings() {
    let c = AntieConfig::default();
    assert_eq!(c.health_port, 7779);
    assert_eq!(c.poll_interval_ms, 10);
    assert_eq!(c.carriers.maildir.unwrap().inbox, "./maildir/inbox");
    assert_eq!(PerformanceConfig::default().lambda_stats_poll_ms, 5_000);
}

#[test]
fn examples_have_their_carriers() {
    assert_eq!(AntieConfig::generate_imap_example().carriers.active_names(), "imap");
    assert_eq!(AntieConfig::generate_pop3_example().carriers.active_names(), "pop3");
    assert_eq!(AntieConfig::generate_advertise_example().carriers.advertise.len(), 2);
    assert_eq!(AntieConfig::generate_all_carriers_example().carriers.active_names(), "maildir,imap,pop3");
    assert_eq!(AntieConfig::generate_default().carriers.active_names(), "maildir");
}

#[test]
fn first_option_picks_the_example() {
    assert_eq!(pick_example(true, true, false, false), Example::Imap);
    assert_eq!(pick_example(false, true, false, true), Example::Pop3);
    assert_eq!(pick_example(false, false, true, true), Example::Advertise);
    assert_eq!(pick_example(false, false, false, true), Example::AllCarriers);
    assert_eq!(pick_example(false, false, false, false), Example::Plain);
}

#[test]
fn ledger_is_looked_for_in_order() {
    assert_eq!(lambda_binary(true, true, true), "./axiom-lambda/target/release/lambda");
    assert_eq!(lambda_binary(false, true, true), "../axiom-lambda/target/release/lambda");
    assert_eq!(lambda_binary(false, false, true), "./target/release/lambda");
    assert_eq!(lambda_binary(false, false, false), "./axiom-lambda/target/debug/lambda");
    assert!(matches!(lambda_override("h:1".into()), LambdaConfig::Tcp { timeout_secs: 30, .. }));
}

#[test]
fn new_mail_directories() {
    let c = init_maildir("/m", "/bin/lambda".into());
    let m = c.carriers.maildir.unwrap();
    assert_eq!((m.inbox.as_str(), m.outbox.as_str()), ("/m/inbox", "/m/outbox"));
    assert!(matches!(c.lambda, LambdaConfig::Subprocess { binary_path, .. } if binary_path == "/bin/lambda"));
}

#[test]
fn keys_are_read_from_hex() {
    let v = ValidatorConfig { public_key_hex: "ff".repeat(32), dilithium_pk_hex: "zz".into(), ..Default::default() };
    assert!(v.has_key());
    assert_eq!(v.public_key_bytes(), Some(vec![255; 32]));
    assert_eq!(v.dilithium_pk_bytes(), None);
    let short = ValidatorConfig { public_key_hex: "00ff".into(), ..Default::default() };
    assert!(!short.has_key());
    assert_eq!(short.public_key_bytes(), None);
    let garbled = ValidatorConfig { public_key_hex: "zz".repeat(32), ..Default::default() };
    assert_eq!(garbled.public_key_bytes(), None);
}

#[test]
fn certificates_are_read_from_hex() {
    let file = VBCFile {
        subject_pubkey_ed25519_hex: "abcd".into(),
        issuer_set: vec!["01".into(), "02".into()],
        issued_at: 5,
        expires_at: default_expires(),
        ..Default::default()
    };
    let vbc = load_vbc(&file);
    assert_eq!(vbc.subject_pubkey_ed25519, vec![0xAB, 0xCD]);
    assert_eq!(vbc.issuer_set, vec![vec![1], vec![2]]);
    assert_eq!(vbc.issued_at, 5);
    assert_eq!(vbc.expires_at, default_expires());
}
