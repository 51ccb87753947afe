use axiom_carriers::tot::config::{
    default_intake_rate, default_max_message_bytes, Config, ConfigText, NablaNode,
};
use axiom_carriers::tot::intake::{
    demux, intake_leg, pump, tcp_intake_leg, IntakeStep, Leg, Prefix, PumpStep, RateLimiter, WsEvent, SECOND,
};
use axiom_carriers::tot::maildir::{unique_name, Inbox};
use axiom_carriers::tot::route::Route;

fn node(name: &str, addr: &str) -> NablaNode {
    NablaNode { name: name.into(), addr: addr.into() }
}

fn text_of(v: &toml::Value, key: &str) -> String {
    v.get(key).unwrap().as_str().unwrap().to_string()
}

/// A configuration as its text gives it, with defaults for what the text leaves out.
fn config_of(text: &str) -> Config {
    let v: toml::Value = toml::from_str(text).unwrap();
    let nabla = v.get("nabla").unwrap().as_array().unwrap();
    Config {
        listen: text_of(&v, "listen"),
        maildir_inbox: text_of(&v, "maildir_inbox"),
        nabla: nabla.iter().map(|n| node(&text_of(n, "name"), &text_of(n, "addr"))).collect(),
        fatmama: vec![],
        intake_max_msgs_per_sec: default_intake_rate(),
        max_message_bytes: default_max_message_bytes(),
    }
}

const COMPLETE: &str = r#"
listen = "0.0.0.0:7400"
maildir_inbox = "/var/lib/axiom/v/maildir/inbox"
[[nabla]]
name = "n0"
addr = "10.0.0.1:6000"
"#;

#[test]
fn parses_a_complete_config() {
    let cfg = config_of(COMPLETE);
    cfg.validate().unwrap();
    assert_eq!(cfg.nabla.len(), 1);
    assert_eq!(cfg.intake_max_msgs_per_sec, 8); // default applied
    assert_eq!(cfg.max_message_bytes, 256 * 1024); // default applied
}

#[test]
fn rejects_empty_nabla_set() {
    let cfg = config_of("listen = \"0.0.0.0:7400\"\nmaildir_inbox = \"/m\"\nnabla = []\n");
    assert!(cfg.validate().is_err());
}

#[test]
fn rejects_a_zero_message_size() {
    let mut cfg = config_of(COMPLETE);
    cfg.max_message_bytes = 0;
    assert_eq!(cfg.validate().unwrap_err(), "config: max_message_bytes must be greater than 0");
}

#[test]
fn config_is_loaded_or_refused() {
    assert!(Config::load("/c.toml", ConfigText::Parsed(config_of(COMPLETE))).is_ok());
    assert!(Config::load("/c.toml", ConfigText::Unreadable("gone".into())).unwrap_err().contains("/c.toml"));
    assert!(Config::load("/c.toml", ConfigText::Unparsable("bad".into())).unwrap_err().contains("bad"));
}

#[test]
fn nodes_are_found_by_their_number() {
    let cfg = config_of(COMPLETE);
    assert_eq!(cfg.nabla_node(0).unwrap().addr, "10.0.0.1:6000");
    assert!(cfg.nabla_node(1).is_err());
    assert!(cfg.fatmama_node(0).is_err());
}

#[test]
fn route_parsing() {
    assert!(matches!(Route::parse("/intake"), Some(Route::Intake)));
    assert!(matches!(Route::parse("/nabla/0"), Some(Route::Nabla(0))));
    assert!(matches!(Route::parse("/nabla/7"), Some(Route::Nabla(7))));
    assert!(Route::parse("/nabla/x").is_none());
    assert!(Route::parse("/nabla/").is_none());
    assert!(Route::parse("/").is_none());
    assert!(Route::parse("/intake/").is_none());
}

#[test]
fn mail_servers_are_reached_in_development_only() {
    assert!(Route::parse("/fatmama/0").is_none());
    assert!(matches!(Route::parse_dev("/fatmama/3"), Some(Route::Fatmama(3))));
    assert!(matches!(Route::parse_dev("/intake"), Some(Route::Intake)));
}

#[test]
fn rate_limiter_caps_the_window() {
    let mut rl = RateLimiter::new(3);
    assert!(rl.allow());
    assert!(rl.allow());
    assert!(rl.allow());
    assert!(!rl.allow(), "4th call in the window must be denied");
}

#[test]
fn rate_limiter_zero_is_unlimited() {
    let mut rl = RateLimiter::new(0);
    for _ in 0..1000 {
        assert!(rl.allow());
    }
}

#[test]
fn next_window_starts_after_a_second() {
    let mut rl = RateLimiter::new(1);
    assert!(rl.allow_at(0));
    assert!(!rl.allow_at(SECOND - 1));
    assert!(rl.allow_at(SECOND));
}

#[test]
fn browsers_are_told_apart() {
    assert_eq!(demux(b"GET "), Leg::WebSocket);
    assert_eq!(demux(b"POST"), Leg::Tcp);
    assert_eq!(demux(&24u32.to_le_bytes()), Leg::Tcp);
}

#[test]
fn frames_over_the_cap_are_refused() {
    assert_eq!(tcp_intake_leg(&16u32.to_le_bytes(), 16), Ok(16));
    assert!(tcp_intake_leg(&1000u32.to_le_bytes(), 16).is_err());
    assert!(tcp_intake_leg(&0u32.to_le_bytes(), 16).is_err());
}

#[test]
fn prefix_is_read_first() {
    let mut p = Prefix::new(b"GET ".to_vec());
    assert_eq!(p.read(3), Some(b"GET".to_vec()));
    assert_eq!(p.read(8), Some(b" ".to_vec()));
    assert_eq!(p.read(8), None);
}

#[test]
fn intake_takes_binary_messages() {
    let mut cfg = config_of(COMPLETE);
    cfg.max_message_bytes = 4;
    let mut rl = RateLimiter::new(2);
    assert!(matches!(intake_leg(&cfg, &mut rl, WsEvent::Binary(vec![1, 2]), 0), IntakeStep::Deliver(b) if b == vec![1, 2]));
    assert!(matches!(intake_leg(&cfg, &mut rl, WsEvent::Other, 0), IntakeStep::Ignore));
    assert!(matches!(intake_leg(&cfg, &mut rl, WsEvent::Binary(vec![0; 5]), 0), IntakeStep::Refuse(_)));
    assert!(matches!(intake_leg(&cfg, &mut rl, WsEvent::Close, 0), IntakeStep::Done));
    assert!(matches!(intake_leg(&cfg, &mut rl, WsEvent::Failed("x".into()), 0), IntakeStep::Refuse(_)));
}

#[test]
fn pump_passes_binary_messages_on() {
    assert!(matches!(pump(WsEvent::Binary(b"ping-axiom".to_vec())), PumpStep::Forward(b) if b == b"ping-axiom".to_vec()));
    assert!(matches!(pump(WsEvent::Other), PumpStep::Ignore));
    assert!(matches!(pump(WsEvent::Close), PumpStep::Stop));
}

#[test]
fn delivered_mails_have_names_of_their_own() {
    let (inbox, dirs) = Inbox::open("/m");
    assert_eq!(dirs.len(), 3);
    let a = unique_name(10, 20, 0, 42);
    let b = unique_name(10, 20, 1, 42);
    assert_eq!(a, "10.20.M0P42.tot");
    assert_ne!(a, b);
    assert_eq!(inbox.deliver(&a), ("/m/tmp/10.20.M0P42.tot".to_string(), "/m/new/10.20.M0P42.tot".to_string()));
    assert_eq!(inbox.new_path(), "/m/new");
}
