use axiom_carriers::antie::email::read_letter;
use axiom_carriers::antie::mail_limits::{is_parsable, MAX_MAIL};
use base64::engine::general_purpose::STANDARD as BASE64;
use base64::Engine;

const HEAD: &str = "From: sender@example.com\nTo: alpha@example.com\nSubject: AXIOM/witness/req-1\n";

/// A mail of several parts.
fn parts(parts: &[&str]) -> String {
    let mut mail = format!("{HEAD}Content-Type: multipart/mixed; boundary=b\n\n");
    for part in parts {
        mail.push_str("--b\n");
        mail.push_str(part);
        mail.push('\n');
    }
    mail.push_str("--b--\n");
    mail
}

/// The number of the request in a mail, or what is said against it.
fn read(mail: &str) -> Result<String, String> {
    match read_letter(mail.as_bytes()) {
        Ok(letter) => Ok(letter.request_id),
        Err(e) => Err(e.to_text()),
    }
}

fn refused(mail: &str) -> bool {
    let said = read(mail) == Err("Email parse error: Failed to parse email".to_string());
    assert_eq!(is_parsable(mail.as_bytes()), !said);
    said
}

const TEXT: &str = "Content-Type: text/plain\n\noA==\n";
const ENCLOSED: &str = "Content-Type: message/rfc822\n\nSubject: x\n\nhello\n";

#[test]
fn a_message_in_a_mail_is_read() {
    assert_eq!(read(&parts(&[TEXT])), Ok("req-1".to_string()));
    assert_eq!(read(&parts(&[TEXT, ENCLOSED])), Ok("req-1".to_string()));
    let long = ENCLOSED.replace("hello", &"a line of text\n".repeat(10_000));
    assert_eq!(read(&parts(&[TEXT, &long])), Ok("req-1".to_string()));
}

#[test]
fn messages_in_messages_are_refused() {
    let twice = "Content-Type: message/rfc822\n\nContent-Type: message/rfc822\n\nSubject: x\n\nhi\n";
    assert!(refused(&parts(&[TEXT, twice])));
    let deep = "Content-Type:message/global\n\n".repeat(200_000);
    assert!(refused(&format!("{HEAD}{deep}hi\n")));
    let digest = "Content-Type: multipart/digest; boundary=c\n\n--c\n\nContent-Type: message/rfc822\n\nhi\n--c--\n";
    assert!(refused(&parts(&[TEXT, digest])));
}

#[test]
fn an_encoded_message_in_a_mail_is_refused() {
    let inner = BASE64.encode("Content-Type:message/global\n\n".repeat(200_000));
    let encoded = format!("Content-Type: message/rfc822\nContent-Transfer-Encoding: base64\n\n{inner}\n");
    assert!(refused(&parts(&[TEXT, &encoded])));
    let worded = encoded.replace("base64", "=?utf-8?q?base=36=34?=");
    assert!(refused(&parts(&[TEXT, &worded])));
    let quoted = "Content-Type: message/rfc822\nContent-Transfer-Encoding: Quoted-Printable\n\nSubject: x\n\nhi\n";
    assert!(refused(&parts(&[TEXT, quoted])));
}

#[test]
fn content_types_are_found_however_they_are_written() {
    for kind in [
        "MESSAGE/RFC822",
        "message/ Global ; x=y",
        "message /rfc822",
        "message(a)/(b)rfc822",
        "message\n /rfc822(c)",
        "multipart/\"digest\"; boundary=c",
    ] {
        let part = format!("Content-Type: {kind}\n\nhi\n");
        assert!(is_parsable(part.as_bytes()), "{kind}");
        assert!(!is_parsable(format!("{part}{part}").as_bytes()), "{kind}");
        assert!(!is_parsable(format!("{part}base64").as_bytes()), "{kind}");
    }
}

#[test]
fn other_uses_of_the_words_are_let_through() {
    for words in [
        "a global digest of rfc822 ",
        "text/global ",
        "message/rfc8221 ",
        "message/xrfc822 ",
        "message/rfc822",
        "message/\nrfc822 ",
        "https://example.com/global ",
    ] {
        assert!(is_parsable(format!("{words}{words}base64").as_bytes()), "{words}");
    }
}

#[test]
fn parts_that_break_off_are_refused() {
    let part = |body: &str| format!("Content-Type: text/html\nContent-Transfer-Encoding: quoted-printable\n\n{body}");
    for body in ["=", "a=", "=41=", "= \t\r", "\r="] {
        assert!(refused(&parts(&[TEXT, &part(body)])), "{body:?}");
        let mail = parts(&[TEXT, &part(body)]).replace('\n', "\r\n");
        assert!(refused(&mail), "{body:?}");
    }
    for body in ["hello=", "=41=42=", "=3D", "hello=\n", "-----=\n-----"] {
        assert_eq!(read(&parts(&[TEXT, &part(body)])), Ok("req-1".to_string()), "{body:?}");
        let mail = parts(&[TEXT, &part(body)]).replace('\n', "\r\n");
        assert_eq!(read(&mail), Ok("req-1".to_string()), "{body:?}");
    }
}

#[test]
fn the_least_time_zone_is_refused() {
    let hop = |zone: &str| format!("Received: from a by b; 1 Jan 2020 1:1:1 {zone}\n{}", parts(&[TEXT]));
    assert!(refused(&hop("-9223372036854775808")));
    assert!(refused(&hop("-009223372036854775808")));
    for zone in ["-0800", "-9223372036854775807", "9223372036854775808", "-922337203685477580"] {
        assert_eq!(read(&hop(zone)), Ok("req-1".to_string()), "{zone}");
    }
}

#[test]
fn lengths_are_kept_in_32_bits() {
    assert_eq!(MAX_MAIL, i32::MAX as usize);
    assert!(is_parsable(b""));
}
