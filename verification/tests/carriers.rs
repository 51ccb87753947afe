use axiom_carriers::antie::carrier::{
    command_bytes, default_inbox, default_processed, default_true, imap_greeting, imap_line, pop3_body_line,
    pop3_count, pop3_reply, search_uids, smtp_reply, CarriersConfig, FailureAction, Fetch, ImapCarrier, ImapConfig,
    MailCarrier, MaildirCarrier, MaildirConfig, Pop3Carrier, Pop3Config, SmtpCarrier,
};
use axiom_carriers::antie::maildir::Maildir;

fn maildir() -> Option<MaildirConfig> {
    Some(MaildirConfig { inbox: "/tmp/in".into(), outbox: "/tmp/out".into() })
}

fn imap() -> ImapConfig {
    ImapConfig {
        server: "imap.example.com".into(),
        port: 993,
        username: "alpha".into(),
        password: "x".into(),
        use_tls: true,
        inbox_folder: "INBOX".into(),
        processed_folder: "INBOX.Processed".into(),
    }
}

fn imap_carrier() -> ImapCarrier {
    let c = imap();
    ImapCarrier::new(c.server, c.port, c.username, c.password, c.use_tls, c.inbox_folder, c.processed_folder)
}

fn pop3_carrier() -> Pop3Carrier {
    Pop3Carrier::new("pop.example.com".into(), 995, "bob".into(), "secret".into(), true)
}

#[test]
fn to_uri_list_email_carriers_collapse() {
    let cfg = CarriersConfig { maildir: maildir(), imap: Some(imap()), ..Default::default() };
    let uris = cfg.to_uri_list("alpha@axiom.network");
    assert_eq!(uris, vec!["email:alpha@axiom.network".to_string()]);
}

#[test]
fn advertise_list_rides_through_to_uri_list_verbatim() {
    let cfg = CarriersConfig {
        maildir: maildir(),
        advertise: vec![
            "tot:axiom-dev.mooo.com:7400".into(),
            "fatmama:axiom-dev.mooo.com:2525".into(),
            "qrcode:https://example.com/qr/alpha".into(),
        ],
        ..Default::default()
    };
    let uris = cfg.to_uri_list("alpha@axiom.network");
    assert_eq!(
        uris,
        vec![
            "email:alpha@axiom.network".to_string(),
            "tot:axiom-dev.mooo.com:7400".to_string(),
            "fatmama:axiom-dev.mooo.com:2525".to_string(),
            "qrcode:https://example.com/qr/alpha".to_string(),
        ]
    );
    assert!(cfg.validate().is_ok(), "maildir email floor satisfied");
}

#[test]
fn maildir_only_passes_validation() {
    let cfg = CarriersConfig { maildir: maildir(), ..Default::default() };
    assert!(cfg.validate().is_ok());
}

#[test]
fn no_email_carrier_fails_validation() {
    let cfg = CarriersConfig { advertise: vec!["tot:axiom-dev.mooo.com:7400".into()], ..Default::default() };
    assert!(
        cfg.validate().is_err(),
        "advertise-only must fail — at least one email-shaped carrier required"
    );
}

#[test]
fn empty_config_fails_validation() {
    let cfg = CarriersConfig::default();
    assert!(cfg.validate().is_err());
}

#[test]
fn pop3_alone_passes_validation_and_is_named() {
    let cfg = CarriersConfig {
        pop3: Some(Pop3Config {
            server: "pop.example.com".into(),
            port: 995,
            username: "bob".into(),
            password: "secret".into(),
            use_tls: true,
        }),
        ..Default::default()
    };
    assert!(cfg.validate().is_ok());
    assert_eq!(cfg.active_names(), "pop3");
}

#[test]
fn active_names_in_order() {
    let cfg = CarriersConfig { maildir: maildir(), imap: Some(imap()), ..Default::default() };
    assert_eq!(cfg.active_names(), "maildir,imap");
    assert_eq!(CarriersConfig::default().active_names(), "");
}

#[test]
fn defaults_of_a_mailbox() {
    assert!(default_true());
    assert_eq!(default_inbox(), "INBOX");
    assert_eq!(default_processed(), "INBOX.Processed");
}

#[test]
fn pop3_says_who_it_is() {
    let lines: Vec<(String, bool)> = pop3_carrier().opening().into_iter().map(|l| (l.command, l.required)).collect();
    assert_eq!(
        lines,
        vec![("USER bob".to_string(), true), ("PASS secret".to_string(), true), ("STAT".to_string(), true)]
    );
    assert_eq!(command_bytes("STAT"), b"STAT\r\n".to_vec());
    assert_eq!(pop3_carrier().retrieve(12), "RETR 12");
}

#[test]
fn pop3_answers() {
    assert!(pop3_reply("+OK 2 320\r\n").is_ok());
    assert_eq!(pop3_reply("-ERR no such message\r\n").unwrap_err().to_text(), "Config error: POP3: -ERR no such message");
    assert_eq!(pop3_count("+OK 2 320\r\n"), 2);
    assert_eq!(pop3_count("+OK"), 0);
    assert_eq!(pop3_count("+OK many"), 0);
}

#[test]
fn pop3_body_ends_at_a_dot_and_drops_doubled_dots() {
    let mut data = Vec::new();
    assert!(!pop3_body_line(&mut data, "Subject: x\r\n"));
    assert!(!pop3_body_line(&mut data, "..hidden\r\n"));
    assert!(!pop3_body_line(&mut data, ".single\r\n"));
    assert!(pop3_body_line(&mut data, ".\r\n"));
    assert_eq!(data, b"Subject: x\r\n.hidden\r\n.single\r\n".to_vec());
}

#[test]
fn imap_tags_count_up_and_have_four_digits() {
    let mut c = imap_carrier();
    let first = c.next_tag();
    let second = c.next_tag();
    assert_eq!(first, "A0001");
    assert_eq!(second, "A0002");
    assert_eq!(c.tagged(&first, "NOOP"), "A0001 NOOP");
}

#[test]
fn imap_answer_ends_with_its_tag() {
    let mut lines = Vec::new();
    assert!(!imap_line("A0001", "* SEARCH 4 7\r\n", &mut lines).unwrap());
    assert!(imap_line("A0001", "A0001 OK done\r\n", &mut lines).unwrap());
    assert_eq!(lines, vec!["* SEARCH 4 7".to_string(), "A0001 OK done".to_string()]);
    assert_eq!(
        imap_line("A0002", "A0002 NO denied\r\n", &mut lines).unwrap_err().to_text(),
        "Config error: IMAP: A0002 NO denied"
    );
    assert_eq!(search_uids(&lines), vec!["4".to_string(), "7".to_string()]);
}

#[test]
fn imap_greeting_must_be_ok() {
    assert!(imap_greeting("* OK ready\r\n").is_ok());
    assert_eq!(imap_greeting("* BYE\r\n").unwrap_err().to_text(), "Config error: IMAP bad greeting: * BYE");
}

#[test]
fn imap_mail_has_the_announced_size() {
    let mut f = Fetch::new();
    assert!(!f.line("A0003", "* 1 FETCH (RFC822 {10}\r\n"));
    assert_eq!(f.remaining, 10);
    assert!(!f.line("A0003", "abcd\r\n"));
    assert_eq!(f.remaining, 4);
    assert!(!f.line("A0003", "ef)\r\n"));
    assert_eq!(f.remaining, 0);
    assert!(f.line("A0003", "A0003 OK\r\n"));
    assert_eq!(f.data, b"abcd\r\nef)\r".to_vec());
}

#[test]
fn smtp_conversation_is_written_whole() {
    let c = SmtpCarrier::new("smtp.example.com".into(), 587, None, None, true, "v@example.com".into());
    assert_eq!(c.address(), "smtp.example.com:587");
    assert_eq!(
        c.conversation("a@b.c", b"mail"),
        vec![
            b"EHLO smtp.example.com\r\n".to_vec(),
            b"MAIL FROM:<v@example.com>\r\n".to_vec(),
            b"RCPT TO:<a@b.c>\r\n".to_vec(),
            b"DATA\r\n".to_vec(),
            b"mail\r\n.\r\n".to_vec(),
        ]
    );
    assert!(smtp_reply("250 OK\r\n").is_ok());
    assert!(smtp_reply("354 go on\r\n").is_ok());
    assert_eq!(smtp_reply("550 no\r\n").unwrap_err().to_text(), "Config error: SMTP error: 550 no");
}

#[test]
fn carriers_say_what_they_can_do() {
    let m = MaildirCarrier::new("/tmp/in", "/tmp/out");
    assert_eq!(m.name(), "maildir");
    assert!(m.can_send().is_ok());
    assert_eq!(pop3_carrier().name(), "pop3");
    assert!(pop3_carrier().can_send().is_err());
    assert_eq!(imap_carrier().name(), "imap");
    assert!(imap_carrier().can_send().is_err());
    let s = SmtpCarrier::new("s".into(), 25, None, None, false, "f@x".into());
    assert_eq!(s.name(), "smtp");
    assert!(matches!(s.on_failure(), FailureAction::LeaveAlone));
}

#[test]
fn maildir_paths() {
    let m = Maildir::open("/var/mail/box");
    assert_eq!(m.path(), "/var/mail/box");
    assert_eq!(
        m.directories(),
        vec!["/var/mail/box/new".to_string(), "/var/mail/box/cur".to_string(), "/var/mail/box/tmp".to_string()]
    );
    assert_eq!(m.waiting("17.x"), "/var/mail/box/new/17.x");
    assert_eq!(m.mark_processed("/var/mail/box/new/17.x").unwrap(), "/var/mail/box/cur/17.x:2,S");
    assert_eq!(m.mark_processed("/").unwrap_err().to_text(), "Maildir error: Invalid filename");
    assert_eq!(
        m.message_paths(5, 42, "u"),
        ("/var/mail/box/tmp/5.42.localhost.u".to_string(), "/var/mail/box/new/5.42.localhost.u".to_string())
    );
    let (tmp, new) = m.write_message(5, 42);
    assert!(tmp.starts_with("/var/mail/box/tmp/5.42.localhost."));
    assert_eq!(tmp.len(), "/var/mail/box/tmp/5.42.localhost.".len() + 36);
    assert_eq!(tmp.replace("/tmp/", "/new/"), new);
}
