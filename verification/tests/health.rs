use axiom_carriers::antie::health::{answer_request, answer_text, check_auth, extract_query_param};
use axiom_carriers::antie::limiter::WalletRateLimiter;
use axiom_carriers::antie::malloc_trim::{spawn_periodic, DEFAULT_INTERVAL_SECS};
use axiom_carriers::antie::stats::{bump, AntieStats};

#[test]
fn test_health_auth_no_token_configured() {
    assert!(check_auth("/health", None, &None));
    assert!(check_auth("/status", None, &None));
    assert!(check_auth("/status", Some("foo=bar"), &None));
}

#[test]
fn test_health_auth_token_configured() {
    let token = Some("secret123".to_string());
    // /health always accessible
    assert!(check_auth("/health", None, &token));
    assert!(check_auth("/health", Some("token=wrong"), &token));
    // /status requires token
    assert!(!check_auth("/status", None, &token));
    assert!(!check_auth("/status", Some("token=wrong"), &token));
    assert!(check_auth("/status", Some("token=secret123"), &token));
    // token with other params
    assert!(check_auth("/status", Some("foo=bar&token=secret123"), &token));
}

#[test]
fn test_extract_query_param() {
    assert_eq!(extract_query_param("token=abc", "token").as_deref(), Some("abc"));
    assert_eq!(extract_query_param("foo=bar&token=xyz", "token").as_deref(), Some("xyz"));
    assert_eq!(extract_query_param("foo=bar", "token"), None);
    assert_eq!(extract_query_param("tokenizer=bad", "token"), None);
}

#[test]
fn health_page_answers() {
    let s = AntieStats::new();
    let answer = answer_text("GET /health HTTP/1.1\r\nHost: x\r\n\r\n", &s, &Some("t".into()), s.started_at);
    assert!(answer.starts_with("HTTP/1.1 200 OK\r\nContent-Type: application/json\r\n"));
}

#[test]
fn status_page_needs_the_token() {
    let s = AntieStats::new();
    let token = Some("t".to_string());
    let refused = answer_request(b"GET /status HTTP/1.1\r\n\r\n", &s, &token, s.started_at);
    assert!(refused.starts_with("HTTP/1.1 401 Unauthorized\r\n"));
    assert!(refused.contains("E_ANTIE_UNAUTHORIZED"));
    let shown = answer_request(b"GET /status?token=t HTTP/1.1\r\n\r\n", &s, &token, s.started_at);
    assert!(shown.starts_with("HTTP/1.1 200 OK\r\n"));
    assert!(shown.contains("\"messages_received\":0"));
}

#[test]
fn other_pages_are_not_found() {
    let s = AntieStats::new();
    let answer = answer_text("GET /nothing HTTP/1.1\r\n\r\n", &s, &None, s.started_at);
    assert!(answer.starts_with("HTTP/1.1 404 Not Found\r\n"));
    assert!(answer.contains("E_ANTIE_NOT_FOUND"));
}

#[test]
fn test_stats_new_zero() {
    let s = AntieStats::new();
    assert_eq!(s.messages_received, 0);
    assert_eq!(s.messages_processed, 0);
    assert!(s.started_at > 0);
}

#[test]
fn test_stats_to_json() {
    let mut s = AntieStats::new();
    s.messages_received = 5;
    let json = String::from_utf8(s.to_json()).unwrap();
    assert!(json.contains("\"messages_received\":5"));
    assert!(json.contains("\"uptime_secs\":"));
}

#[test]
fn test_stats_all_counters_increment() {
    let mut s = AntieStats::new();
    s.messages_received += 1;
    s.messages_processed += 2;
    s.messages_failed += 3;
    s.tcp_connections += 4;
    s.tcp_rate_limited += 5;
    s.lambda_requests += 6;
    s.lambda_errors += 7;
    s.emails_sent += 8;

    let json = String::from_utf8(s.to_json()).unwrap();
    assert!(json.contains("\"messages_received\":1"));
    assert!(json.contains("\"messages_processed\":2"));
    assert!(json.contains("\"messages_failed\":3"));
    assert!(json.contains("\"tcp_connections\":4"));
    assert!(json.contains("\"tcp_rate_limited\":5"));
    assert!(json.contains("\"lambda_requests\":6"));
    assert!(json.contains("\"lambda_errors\":7"));
    assert!(json.contains("\"emails_sent\":8"));
}

#[test]
fn test_ban_rejected_counter() {
    let mut s = AntieStats::new();
    assert_eq!(s.ban_rejected, 0);
    s.ban_rejected += 3;
    let json = String::from_utf8(s.to_json()).unwrap();
    assert!(json.contains("\"ban_rejected\":3"));
}

#[test]
fn uptime_is_counted_from_the_start() {
    let s = AntieStats::started(100);
    assert_eq!(s.uptime(160), 60);
    assert_eq!(s.uptime(90), 0);
    assert!(s.to_text_at(160).contains("\"uptime_secs\":60"));
    assert_eq!(bump(u64::MAX), 0);
}

#[test]
fn wallets_wait_and_are_forgotten() {
    let mut l = WalletRateLimiter::new(2_000);
    assert!(l.check_and_record_at("w", 0));
    assert!(!l.check_and_record_at("w", 1_999_999_999));
    assert!(l.check_and_record_at("w", 2_000_000_000));
    assert!(l.check_and_record_at("v", 2_000_000_000));
    assert_eq!(l.len(), 2);
    l.evict_stale_at(6_000_000_000);
    assert_eq!(l.len(), 0);
    assert!(l.check_and_record("u"));
    assert!(!l.check_and_record("u"));
    l.evict_stale();
    assert_eq!(l.len(), 1);
}

#[test]
fn memory_is_trimmed_as_set() {
    assert_eq!(spawn_periodic(None), Some(DEFAULT_INTERVAL_SECS));
    assert_eq!(spawn_periodic(Some("5")), Some(5));
    assert_eq!(spawn_periodic(Some("0")), None);
    assert_eq!(spawn_periodic(Some("often")), Some(60));
}

#[test]
fn counters_are_json_whatever_the_names() {
    let mut s = AntieStats::new();
    s.active_carriers = "a\"b\\c\n".into();
    s.core_version = "\"".into();
    let value: serde_json::Value = serde_json::from_slice(&s.to_json()).unwrap();
    assert_eq!(value["active_carriers"], "a\"b\\c\n");
    assert_eq!(value["core_version"], "\"");
    assert_eq!(value["messages_received"], 0);
}
