//! Mail as the carrier of requests and answers.
//!
//! The subject names the message, `AXIOM/<type>/<request id>`. The body is the
//! Base64 form of CBOR, which for requests of clients is an envelope around
//! the request, sealed or not.
use vstd::prelude::*;
use vstd::utf8::*;
use base64::Engine;
use crate::antie::cbor;
use crate::antie::cbor::{cbor_to_json, json_to_cbor};
use crate::antie::error::{labelled, AntieError, ErrorView};
use crate::antie::mail_limits;
use crate::antie::payload;
use crate::antie::payload::{AntiePayload, PayloadView};
use crate::json;
use crate::json::{Json, JsonValue};
use crate::text;

verus! {

// ---------------------------------------------------------------------------
// Subjects
// ---------------------------------------------------------------------------

/// Whether a subject names the message type `kind` and the request `id`: the
/// type holds no slash, the request may.
pub open spec fn is_subject(subject: Seq<char>, kind: Seq<char>, id: Seq<char>) -> bool {
    subject == "AXIOM/"@ + kind + "/"@ + id && !kind.contains('/')
}

/// The error for a subject that names no message.
pub open spec fn subject_error(subject: Seq<char>) -> ErrorView {
    ErrorView::EmailParseError(
        "Invalid subject format: "@ + subject + ". Expected: AXIOM/<type>/<request_id>"@,
    )
}

/// A subject names at most one message.
pub proof fn law_subject_is_unambiguous(
    subject: Seq<char>,
    kind: Seq<char>,
    id: Seq<char>,
    kind2: Seq<char>,
    id2: Seq<char>,
)
    requires
        is_subject(subject, kind, id),
        is_subject(subject, kind2, id2),
    ensures
        kind == kind2,
        id == id2,
{
    reveal_strlit("AXIOM/");
    reveal_strlit("/");
    let a = "AXIOM/"@ + kind + "/"@ + id;
    let b = "AXIOM/"@ + kind2 + "/"@ + id2;
    assert(a[6int + kind.len()] == '/');
    assert(b[6int + kind2.len()] == '/');
    if kind.len() < kind2.len() {
        assert(b[6int + kind.len()] == kind2[kind.len() as int]);
        assert(kind2.contains('/'));
    }
    if kind2.len() < kind.len() {
        assert(a[6int + kind2.len()] == kind[kind2.len() as int]);
        assert(kind.contains('/'));
    }
    assert(kind == a.subrange(6, 6int + kind.len()));
    assert(kind2 == b.subrange(6, 6int + kind2.len()));
    assert(id == a.subrange(7int + kind.len(), a.len() as int));
    assert(id2 == b.subrange(7int + kind2.len(), b.len() as int));
}

/// Reads a subject: the message type and the request id.
pub fn parse_subject(subject: &str) -> (r: Result<(String, String), AntieError>)
    ensures
        match r {
            Ok((kind, id)) => is_subject(subject@, kind@, id@),
            Err(e) => e@ == subject_error(subject@) && forall|kind: Seq<char>, id: Seq<char>|
                !is_subject(subject@, kind, id),
        },
{
    let v = text::chars_of(subject);
    let lead = text::chars_of("AXIOM/");
    proof {
        reveal_strlit("AXIOM/");
        reveal_strlit("/");
        assert(v@.skip(0) == v@);
    }
    if text::has_at(&v, 0, &lead) {
        let mut i: usize = 6;
        while i < v.len()
            invariant
                6 <= i <= v@.len(),
                v@ == subject@,
                "/"@ == seq!['/'],
                "AXIOM/"@.len() == 6,
                v@.take(6) == "AXIOM/"@,
                forall|k: int| 6 <= k < i ==> v@[k] != '/',
            decreases v@.len() - i,
        {
            if v[i] == '/' {
                let kind = text::string_of(&v, 6, i);
                let id = text::string_of(&v, i + 1, v.len());
                assert(subject@ == "AXIOM/"@ + kind@ + "/"@ + id@);
                return Ok((kind, id));
            }
            i = i + 1;
        }
    }
    proof {
        assert("/"@ == seq!['/']);
        assert forall|kind: Seq<char>, id: Seq<char>| !is_subject(subject@, kind, id) by {
            if is_subject(subject@, kind, id) {
                assert(subject@.take(6) == "AXIOM/"@);
                assert(subject@[6int + kind.len()] == '/');
            }
        }
    }
    let mut m = String::from_str("Invalid subject format: ");
    m.append(subject);
    m.append(". Expected: AXIOM/<type>/<request_id>");
    Err(AntieError::EmailParseError(m))
}

// ---------------------------------------------------------------------------
// Headers
// ---------------------------------------------------------------------------

/// A text without carriage returns and line feeds.
pub open spec fn clean(s: Seq<char>) -> Seq<char>
    decreases s.len(),
{
    if s.len() == 0 {
        s
    } else if s.last() == '\r' || s.last() == '\n' {
        clean(s.drop_last())
    } else {
        clean(s.drop_last()).push(s.last())
    }
}

/// Whether a text fits on one line.
pub open spec fn one_line(s: Seq<char>) -> bool {
    !s.contains('\r') && !s.contains('\n')
}

/// What is cleaned fits on one line, and cleaning leaves such a text alone.
pub proof fn law_clean_is_one_line(s: Seq<char>)
    ensures
        one_line(clean(s)),
        one_line(s) ==> clean(s) == s,
        clean(clean(s)) == clean(s),
    decreases s.len(),
{
    if s.len() > 0 {
        let t = s.drop_last();
        law_clean_is_one_line(t);
        let c = s.last();
        if c == '\r' || c == '\n' {
            assert(s[s.len() - 1] == c);
            assert(s.contains(c));
        } else {
            let r = clean(t).push(c);
            assert forall|k: int| 0 <= k < r.len() implies r[k] != '\r' && r[k] != '\n' by {
                if k < clean(t).len() {
                    assert(r[k] == clean(t)[k]);
                    assert(clean(t).contains(clean(t)[k]));
                }
            }
            assert(r.drop_last() == clean(t));
            if one_line(s) {
                assert forall|x: char| t.contains(x) implies s.contains(x) by {
                    let k = choose|k: int| 0 <= k < t.len() && t[k] == x;
                    assert(s[k] == x);
                }
                assert(t.push(c) == s);
            }
        }
    }
}

/// Cleaning leaves out line ends and nothing else: what is left of two texts is what is left of
/// one, followed by what is left of the other.
pub proof fn law_clean_is_part_by_part(a: Seq<char>, b: Seq<char>, c: char)
    ensures
        clean(a + b) == clean(a) + clean(b),
        c == '\r' || c == '\n' ==> clean(seq![c]) == Seq::<char>::empty(),
        c != '\r' && c != '\n' ==> clean(seq![c]) == seq![c],
    decreases b.len(),
{
    reveal_with_fuel(clean, 2);
    assert(seq![c].drop_last() == Seq::<char>::empty());
    assert(Seq::<char>::empty().push(c) == seq![c]);
    if b.len() == 0 {
        assert(a + b == a);
        assert(clean(a) + clean(b) == clean(a));
    } else {
        law_clean_is_part_by_part(a, b.drop_last(), c);
        assert((a + b).drop_last() == a + b.drop_last());
        assert((a + b).last() == b.last());
        if b.last() != '\r' && b.last() != '\n' {
            assert((clean(a) + clean(b.drop_last())).push(b.last()) == clean(a) + clean(b.drop_last()).push(
                b.last(),
            ));
        }
    }
}

/// Strips what would end a header line.
pub fn sanitize_header(value: &str) -> (r: String)
    ensures
        r@ == clean(value@),
        one_line(r@),
{
    let v = text::chars_of(value);
    let mut out = String::new();
    let mut i: usize = 0;
    while i < v.len()
        invariant
            i <= v@.len(),
            v@ == value@,
            out@ == clean(value@.take(i as int)),
        decreases v@.len() - i,
    {
        assert(value@.take(i + 1).drop_last() == value@.take(i as int));
        if v[i] != '\r' && v[i] != '\n' {
            out.push(v[i]);
        }
        i = i + 1;
    }
    proof {
        assert(value@.take(i as int) == value@);
        law_clean_is_one_line(value@);
    }
    out
}

/// What is wrong with an address, if anything is: a line break, or no at sign.
pub open spec fn address_error(addr: Seq<char>) -> Option<ErrorView> {
    if !one_line(addr) {
        Some(
            ErrorView::EmailParseError(
                "Email address contains newline (header injection attempt)"@,
            ),
        )
    } else if !addr.contains('@') {
        Some(ErrorView::EmailParseError("Invalid email address: '"@ + addr + "'"@))
    } else {
        None
    }
}

/// Checks the basic shape of an address.
pub fn validate_email_addr(addr: &str) -> (r: Result<(), AntieError>)
    ensures
        match address_error(addr@) {
            None => r is Ok,
            Some(e) => r matches Err(got) && got@ == e,
        },
{
    if text::has_char(addr, '\r') || text::has_char(addr, '\n') {
        return Err(AntieError::mail("Email address contains newline (header injection attempt)"));
    }
    if addr.is_empty() || !text::has_char(addr, '@') {
        let mut m = String::from_str("Invalid email address: '");
        m.append(addr);
        m.append("'");
        return Err(AntieError::EmailParseError(m));
    }
    Ok(())
}

// ---------------------------------------------------------------------------
// Outside functions
// ---------------------------------------------------------------------------

/// The standard Base64 form of bytes, padded.
pub uninterp spec fn base64_text(b: Seq<u8>) -> Seq<char>;

/// What the standard Base64 decoder makes of a text: bytes, or why not.
pub uninterp spec fn base64_decoded(s: Seq<char>) -> Result<Seq<u8>, Seq<char>>;

/// A successful decoding.
pub open spec fn good(b: Seq<u8>) -> Result<Seq<u8>, Seq<char>> {
    Ok(b)
}

/// Whether a character belongs to the standard Base64 alphabet or its padding.
pub open spec fn is_base64_char(c: char) -> bool {
    ('A' <= c && c <= 'Z') || ('a' <= c && c <= 'z') || ('0' <= c && c <= '9') || c == '+' || c
        == '/' || c == '='
}

/// `base64::Engine::encode` of the standard engine: the Base64 form of bytes.
/// It is made of Base64 characters, and the same engine decodes it to the same
/// bytes.
#[verifier::external_body]
fn base64_encode(b: &[u8]) -> (r: String)
    ensures
        r@ == base64_text(b@),
        forall|i: int| 0 <= i < r@.len() ==> is_base64_char(#[trigger] r@[i]),
        base64_decoded(r@) == good(b@),
{
    base64::engine::general_purpose::STANDARD.encode(b)
}

/// `base64::Engine::decode` of the standard engine: the bytes of a text, or
/// the text of the error.
#[verifier::external_body]
fn base64_decode(s: &str) -> (r: Result<Vec<u8>, String>)
    ensures
        match base64_decoded(s@) {
            Ok(b) => r matches Ok(got) && got@ == b,
            Err(e) => r matches Err(got) && got@ == e,
        },
{
    base64::engine::general_purpose::STANDARD.decode(s).map_err(|e| e.to_string())
}

/// Whether a text is a universally unique identifier in its hyphenated form.
pub open spec fn is_uuid(s: Seq<char>) -> bool {
    s.len() == 36 && forall|i: int|
        0 <= i < 36 ==> if i == 8 || i == 13 || i == 18 || i == 23 {
            #[trigger] s[i] == '-'
        } else {
            text::is_hex_digit(s[i])
        }
}

/// `uuid::Uuid::new_v4`: a random identifier, written in its hyphenated form.
#[verifier::external_body]
pub(crate) fn random_uuid() -> (r: String)
    ensures
        is_uuid(r@),
{
    uuid::Uuid::new_v4().to_string()
}

/// `chrono::Utc::now`: the seconds since the epoch, now.
#[verifier::external_body]
fn utc_seconds() -> (r: i64) {
    chrono::Utc::now().timestamp()
}

/// `chrono::Utc::now`, written in the form that mail headers ask for. Of the
/// text only this is stated: it fits on one line.
#[verifier::external_body]
fn utc_date(form: &str) -> (r: String)
    requires
        form@ == "%a, %d %b %Y %H:%M:%S +0000"@,
    ensures
        one_line(r@),
{
    chrono::Utc::now().format(form).to_string()
}

// ---------------------------------------------------------------------------
// Writing mail
// ---------------------------------------------------------------------------

/// What a mail says besides what its writer asks for.
pub struct Stamp {
    pub message_id: Seq<char>,
    pub date: Seq<char>,
}

/// Whether a stamp is one that a mail can bear: a message id made of a random
/// identifier and a time, and a date on one line.
pub open spec fn is_stamp(s: Stamp) -> bool {
    one_line(s.date) && exists|u: Seq<char>, t: i64|
        is_uuid(u) && s.message_id == #[trigger] message_id(u, t)
}

/// The message id made of an identifier and a time.
pub open spec fn message_id(u: Seq<char>, t: i64) -> Seq<char> {
    "<"@ + u + "."@ + text::dec_int(t as int) + "@axiom>"@
}

/// A header line, without its end.
pub open spec fn header(name: Seq<char>, value: Seq<char>) -> Seq<char> {
    name + ": "@ + value
}

/// The header lines of a mail.
pub open spec fn headers(
    from: Seq<char>,
    to: Seq<char>,
    kind: Seq<char>,
    id: Seq<char>,
    stamp: Stamp,
    reply: Option<Seq<char>>,
) -> Seq<Seq<char>> {
    let all = seq![
        header("From"@, clean(from)),
        header("To"@, clean(to)),
        header("Subject"@, "AXIOM/"@ + clean(kind) + "/"@ + clean(id)),
        header("Message-ID"@, stamp.message_id),
        header("Date"@, stamp.date),
        header("Content-Type"@, "text/plain; charset=utf-8"@),
    ];
    match reply {
        Some(r) => all.push(header("In-Reply-To"@, clean(r))),
        None => all,
    }
}

/// Lines, each with its end.
pub open spec fn ended(l: Seq<Seq<char>>) -> Seq<char>
    decreases l.len(),
{
    if l.len() == 0 {
        Seq::empty()
    } else {
        ended(l.drop_last()) + l.last() + "\r\n"@
    }
}

/// A mail: its header lines, an empty line, and its body in one line.
pub open spec fn mail(lines: Seq<Seq<char>>, body: Seq<char>) -> Seq<char> {
    ended(lines) + "\r\n"@ + body + "\r\n"@
}

/// Whether `bytes` are a mail with the given parts, whatever its stamp.
pub open spec fn is_mail(
    bytes: Seq<u8>,
    from: Seq<char>,
    to: Seq<char>,
    kind: Seq<char>,
    id: Seq<char>,
    reply: Option<Seq<char>>,
    body: Seq<u8>,
) -> bool {
    exists|stamp: Stamp|
        is_stamp(stamp) && bytes == encode_utf8(
            mail(#[trigger] headers(from, to, kind, id, stamp, reply), base64_text(body)),
        )
}

/// No header of a mail can be forged through its parts: whatever they hold,
/// each header fits on its line.
pub proof fn law_headers_stay_on_their_lines(
    from: Seq<char>,
    to: Seq<char>,
    kind: Seq<char>,
    id: Seq<char>,
    stamp: Stamp,
    reply: Option<Seq<char>>,
    i: int,
)
    requires
        is_stamp(stamp),
        0 <= i < headers(from, to, kind, id, stamp, reply).len(),
    ensures
        one_line(headers(from, to, kind, id, stamp, reply)[i]),
{
    reveal_strlit("From");
    reveal_strlit("To");
    reveal_strlit("Subject");
    reveal_strlit("Message-ID");
    reveal_strlit("Date");
    reveal_strlit("Content-Type");
    reveal_strlit("text/plain; charset=utf-8");
    reveal_strlit("In-Reply-To");
    reveal_strlit(": ");
    reveal_strlit("AXIOM/");
    reveal_strlit("/");
    reveal_strlit("<");
    reveal_strlit(".");
    reveal_strlit("@axiom>");
    law_clean_is_one_line(from);
    law_clean_is_one_line(to);
    law_clean_is_one_line(kind);
    law_clean_is_one_line(id);
    let (u, t) = choose|u: Seq<char>, t: i64|
        is_uuid(u) && stamp.message_id == #[trigger] message_id(u, t);
    lemma_dec_int_one_line(t as int);
    assert(one_line(u)) by {
        assert forall|k: int| 0 <= k < u.len() implies u[k] != '\r' && u[k] != '\n' by {
            assert(u[k] == '-' || text::is_hex_digit(u[k]));
        }
    }
    lemma_one_line_add("<"@, u);
    lemma_one_line_add("<"@ + u, "."@);
    lemma_one_line_add("<"@ + u + "."@, text::dec_int(t as int));
    lemma_one_line_add("<"@ + u + "."@ + text::dec_int(t as int), "@axiom>"@);
    lemma_one_line_add("AXIOM/"@, clean(kind));
    lemma_one_line_add("AXIOM/"@ + clean(kind), "/"@);
    lemma_one_line_add("AXIOM/"@ + clean(kind) + "/"@, clean(id));
    lemma_header_one_line("From"@, clean(from));
    lemma_header_one_line("To"@, clean(to));
    lemma_header_one_line("Subject"@, "AXIOM/"@ + clean(kind) + "/"@ + clean(id));
    lemma_header_one_line("Message-ID"@, stamp.message_id);
    lemma_header_one_line("Date"@, stamp.date);
    lemma_header_one_line("Content-Type"@, "text/plain; charset=utf-8"@);
    if reply is Some {
        law_clean_is_one_line(reply->0);
        lemma_header_one_line("In-Reply-To"@, clean(reply->0));
    }
}

proof fn lemma_one_line_add(a: Seq<char>, b: Seq<char>)
    requires
        one_line(a),
        one_line(b),
    ensures
        one_line(a + b),
{
    assert forall|k: int| 0 <= k < (a + b).len() implies (a + b)[k] != '\r' && (a + b)[k]
        != '\n' by {
        if k < a.len() {
            assert((a + b)[k] == a[k]);
            assert(a.contains(a[k]));
        } else {
            assert((a + b)[k] == b[k - a.len()]);
            assert(b.contains(b[k - a.len()]));
        }
    }
}

proof fn lemma_header_one_line(name: Seq<char>, value: Seq<char>)
    requires
        one_line(name),
        one_line(value),
    ensures
        one_line(header(name, value)),
{
    reveal_strlit(": ");
    lemma_one_line_add(name, ": "@);
    lemma_one_line_add(name + ": "@, value);
}

proof fn lemma_dec_one_line(n: nat)
    ensures
        one_line(text::dec(n)),
    decreases n,
{
    if n >= 10 {
        lemma_dec_one_line(n / 10);
        assert(one_line(seq![text::digit(n % 10)]));
        lemma_one_line_add(text::dec(n / 10), seq![text::digit(n % 10)]);
        assert(text::dec(n) == text::dec(n / 10) + seq![text::digit(n % 10)]);
    }
}

proof fn lemma_dec_int_one_line(i: int)
    ensures
        one_line(text::dec_int(i)),
{
    if i < 0 {
        lemma_dec_one_line((-i) as nat);
        lemma_one_line_add(seq!['-'], text::dec((-i) as nat));
    } else {
        lemma_dec_one_line(i as nat);
    }
}

/// The header of a mail says from whom it is, to whom, which message of which request, what it
/// answers and what it is, each on a line of its own.
pub proof fn law_header_says_the_parts(
    from: Seq<char>,
    to: Seq<char>,
    kind: Seq<char>,
    id: Seq<char>,
    stamp: Stamp,
    reply: Option<Seq<char>>,
)
    requires
        one_line(from),
        one_line(to),
        one_line(kind),
        one_line(id),
        reply matches Some(r) ==> one_line(r),
    ensures
        headers(from, to, kind, id, stamp, reply).contains("From: "@ + from),
        headers(from, to, kind, id, stamp, reply).contains("To: "@ + to),
        headers(from, to, kind, id, stamp, reply).contains("Subject: AXIOM/"@ + kind + "/"@ + id),
        headers(from, to, kind, id, stamp, reply).contains("Message-ID: "@ + stamp.message_id),
        headers(from, to, kind, id, stamp, reply).contains("Date: "@ + stamp.date),
        headers(from, to, kind, id, stamp, reply).contains("Content-Type: text/plain; charset=utf-8"@),
        reply matches Some(r) ==> headers(from, to, kind, id, stamp, reply).contains("In-Reply-To: "@ + r),
        headers(from, to, kind, id, stamp, reply).len() == if reply is Some {
            7int
        } else {
            6int
        },
        !kind.contains('/') ==> is_subject("AXIOM/"@ + clean(kind) + "/"@ + clean(id), kind, id),
{
    law_clean_is_one_line(from);
    law_clean_is_one_line(to);
    law_clean_is_one_line(kind);
    law_clean_is_one_line(id);
    if reply is Some {
        law_clean_is_one_line(reply->0);
    }
    reveal_strlit("From");
    reveal_strlit("From: ");
    reveal_strlit("To");
    reveal_strlit("To: ");
    reveal_strlit("Subject");
    reveal_strlit("Subject: AXIOM/");
    reveal_strlit("AXIOM/");
    reveal_strlit("Message-ID");
    reveal_strlit("Message-ID: ");
    reveal_strlit("Date");
    reveal_strlit("Date: ");
    reveal_strlit("Content-Type");
    reveal_strlit("text/plain; charset=utf-8");
    reveal_strlit("Content-Type: text/plain; charset=utf-8");
    reveal_strlit("In-Reply-To");
    reveal_strlit("In-Reply-To: ");
    reveal_strlit(": ");
    let h = headers(from, to, kind, id, stamp, reply);
    assert("From: "@ == "From"@ + ": "@);
    assert(h[0] == "From: "@ + from);
    assert("To: "@ == "To"@ + ": "@);
    assert(h[1] == "To: "@ + to);
    assert("Subject: AXIOM/"@ == "Subject"@ + ": "@ + "AXIOM/"@);
    assert(h[2] == "Subject: AXIOM/"@ + kind + "/"@ + id);
    assert("Message-ID: "@ == "Message-ID"@ + ": "@);
    assert(h[3] == "Message-ID: "@ + stamp.message_id);
    assert("Date: "@ == "Date"@ + ": "@);
    assert(h[4] == "Date: "@ + stamp.date);
    assert("Content-Type: text/plain; charset=utf-8"@ == "Content-Type"@ + ": "@ + "text/plain; charset=utf-8"@);
    assert(h[5] == "Content-Type: text/plain; charset=utf-8"@);
    if reply is Some {
        assert("In-Reply-To: "@ == "In-Reply-To"@ + ": "@);
        assert(h[6] == "In-Reply-To: "@ + reply->0);
    }
}

/// A mail is its header lines, an empty line and its body, each ended by a carriage return and a
/// line feed.
pub proof fn law_mail_is_its_lines(lines: Seq<Seq<char>>, more: Seq<Seq<char>>, body: Seq<char>)
    ensures
        mail(lines, body) == ended(lines + seq![Seq::<char>::empty(), body]),
        ended(lines + more) == ended(lines) + ended(more),
        ended(seq![body]) == body + "\r\n"@,
    decreases more.len(),
{
    reveal_with_fuel(ended, 3);
    let all = lines + seq![Seq::<char>::empty(), body];
    assert(all.drop_last().drop_last() == lines);
    assert(all.last() == body);
    assert(all.drop_last().last() == Seq::<char>::empty());
    assert(ended(all) == ended(lines) + Seq::<char>::empty() + "\r\n"@ + body + "\r\n"@);
    assert(ended(lines) + Seq::<char>::empty() == ended(lines));
    assert(seq![body].drop_last().len() == 0);
    assert(Seq::<char>::empty() + body == body);
    if more.len() == 0 {
        assert(lines + more == lines);
        assert(ended(lines) + ended(more) == ended(lines));
    } else {
        law_mail_is_its_lines(lines, more.drop_last(), body);
        assert((lines + more).drop_last() == lines + more.drop_last());
        assert((lines + more).last() == more.last());
        assert(ended(lines) + ended(more.drop_last()) + more.last() + "\r\n"@ == ended(lines) + (ended(
            more.drop_last(),
        ) + more.last() + "\r\n"@));
    }
}

/// Appends a header line.
fn push_header(out: &mut String, name: &str, value: &str)
    ensures
        final(out)@ == old(out)@ + header(name@, value@) + "\r\n"@,
{
    out.append(name);
    out.append(": ");
    out.append(value);
    out.append("\r\n");
    assert(out@ == old(out)@ + header(name@, value@) + "\r\n"@);
}

/// A fresh message id.
fn new_message_id() -> (r: String)
    ensures
        exists|u: Seq<char>, t: i64| is_uuid(u) && r@ == #[trigger] message_id(u, t),
{
    let u = random_uuid();
    let t: i64 = utc_seconds();
    let mut out = String::from_str("<");
    out.append(u.as_str());
    out.append(".");
    out.append(text::dec_int_string(t).as_str());
    out.append("@axiom>");
    assert(out@ == message_id(u@, t));
    out
}

/// Whether the line in which a mail carries bytes stands for those bytes.
pub open spec fn reads_back(body: Seq<u8>) -> bool {
    body.len() > 0 ==> body_bytes(base64_text(body) + "\r\n"@) == Ok::<Seq<u8>, ErrorView>(body)
}

/// Writes a mail around a body.
fn write_mail(
    from: &str,
    to: &str,
    kind: &str,
    id: &str,
    reply: Option<&str>,
    body: &[u8],
) -> (r: Vec<u8>)
    ensures
        is_mail(
            r@,
            from@,
            to@,
            kind@,
            id@,
            match reply {
                Some(s) => Some(s@),
                None => None,
            },
            body@,
        ),
        reads_back(body@),
{
    let ghost reply_text = match reply {
        Some(s) => Some(s@),
        None => None,
    };
    let encoded = base64_encode(body);
    let msg_id = new_message_id();
    let mut subject = String::from_str("AXIOM/");
    subject.append(sanitize_header(kind).as_str());
    subject.append("/");
    subject.append(sanitize_header(id).as_str());
    let date = utc_date("%a, %d %b %Y %H:%M:%S +0000");
    let ghost stamp = Stamp { message_id: msg_id@, date: date@ };
    let ghost all = headers(from@, to@, kind@, id@, stamp, reply_text);
    let mut out = String::new();
    push_header(&mut out, "From", sanitize_header(from).as_str());
    push_header(&mut out, "To", sanitize_header(to).as_str());
    push_header(&mut out, "Subject", subject.as_str());
    push_header(&mut out, "Message-ID", msg_id.as_str());
    push_header(&mut out, "Date", date.as_str());
    push_header(&mut out, "Content-Type", "text/plain; charset=utf-8");
    proof {
        let six = headers(from@, to@, kind@, id@, stamp, None);
        reveal_with_fuel(ended, 7);
        assert(six.drop_last().drop_last().drop_last().drop_last().drop_last().drop_last().len()
            == 0);
        assert(out@ == ended(six));
        if reply is Some {
            assert(all.drop_last() == six);
        }
    }
    match reply {
        Some(r) => push_header(&mut out, "In-Reply-To", sanitize_header(r).as_str()),
        None => {},
    }
    assert(out@ == ended(all));
    out.append("\r\n");
    out.append(encoded.as_str());
    out.append("\r\n");
    assert(out@ == mail(all, base64_text(body@)));
    assert(is_stamp(stamp));
    proof {
        lemma_dense_line(encoded@);
    }
    vstd::slice::slice_to_vec(out.as_str().as_bytes())
}

/// Writes an answer. Its body is the CBOR form of the answer, and the line that
/// carries it reads back as the same bytes.
pub fn build_response(
    to: &str,
    from: &str,
    message_type: &str,
    request_id: &str,
    in_reply_to: Option<&str>,
    cbor_bytes: &[u8],
) -> (r: Result<Vec<u8>, AntieError>)
    ensures
        match address_error(to@) {
            Some(e) => r matches Err(got) && got@ == e,
            None => match address_error(from@) {
                Some(e) => r matches Err(got) && got@ == e,
                None => r matches Ok(bytes) && is_mail(
                    bytes@,
                    from@,
                    to@,
                    message_type@,
                    request_id@,
                    match in_reply_to {
                        Some(s) => Some(s@),
                        None => None,
                    },
                    cbor_bytes@,
                ) && reads_back(cbor_bytes@),
            },
        },
{
    match validate_email_addr(to) {
        Err(e) => {
            return Err(e);
        },
        Ok(_) => {},
    }
    match validate_email_addr(from) {
        Err(e) => {
            return Err(e);
        },
        Ok(_) => {},
    }
    Ok(write_mail(from, to, message_type, request_id, in_reply_to, cbor_bytes))
}

// ---------------------------------------------------------------------------
// Reading mail
// ---------------------------------------------------------------------------

/// The parts of a mail that are read.
pub struct MailParts {
    pub from: Option<String>,
    pub to: Option<String>,
    pub message_id: Option<String>,
    pub correlate: Option<String>,
    pub subject: Option<String>,
    pub text_body: Option<String>,
    pub html_body: Option<String>,
}

/// The mathematical value of [`MailParts`].
pub struct PartsView {
    pub from: Option<Seq<char>>,
    pub to: Option<Seq<char>>,
    pub message_id: Option<Seq<char>>,
    pub correlate: Option<Seq<char>>,
    pub subject: Option<Seq<char>>,
    pub text_body: Option<Seq<char>>,
    pub html_body: Option<Seq<char>>,
}

impl View for MailParts {
    type V = PartsView;

    open spec fn view(&self) -> PartsView {
        PartsView {
            from: payload::opt(self.from),
            to: payload::opt(self.to),
            message_id: payload::opt(self.message_id),
            correlate: payload::opt(self.correlate),
            subject: payload::opt(self.subject),
            text_body: payload::opt(self.text_body),
            html_body: payload::opt(self.html_body),
        }
    }
}

/// What the mail parser makes of a raw mail: its first sender and recipient
/// address, its message id, the raw value of the header `correlate`, its
/// subject, and its first text and HTML bodies.
pub uninterp spec fn parsed_mail(raw: Seq<u8>, correlate: Seq<char>) -> Option<PartsView>;

/// `mail_parser::MessageParser::parse`, and the parts of the message that it
/// returns. The mails that it may be handed are those of
/// [`mail_limits::parsable`]: others can make it run out of stack, or stop it
/// where it is built with overflow checks and debug assertions.
#[verifier::external_body]
fn parse_mail(raw: &[u8], correlate: &str) -> (r: Option<MailParts>)
    requires
        mail_limits::parsable(raw@),
    ensures
        payload::opt(r) == parsed_mail(raw@, correlate@),
{
    let m = mail_parser::MessageParser::default().parse(raw)?;
    Some(MailParts {
        from: m.from().and_then(|a| a.first()).and_then(|a| a.address()).map(String::from),
        to: m.to().and_then(|a| a.first()).and_then(|a| a.address()).map(String::from),
        message_id: m.message_id().map(String::from),
        correlate: m.header_raw(correlate.to_string()).map(String::from),
        subject: m.subject().map(String::from),
        text_body: m.body_text(0).map(String::from),
        html_body: m.body_html(0).map(String::from),
    })
}

/// The parts of a raw mail. One that the parser may not be handed has none.
pub open spec fn mail_parts(raw: Seq<u8>) -> Option<PartsView> {
    if mail_limits::parsable(raw) {
        parsed_mail(raw, CORRELATE_HEADER@)
    } else {
        None
    }
}

/// A text with a space before each opening angle bracket.
pub open spec fn spaced(s: Seq<char>) -> Seq<char>
    decreases s.len(),
{
    if s.len() == 0 {
        s
    } else if s.last() == '<' {
        spaced(s.drop_last()).push(' ').push('<')
    } else {
        spaced(s.drop_last()).push(s.last())
    }
}

/// What follows the first closing angle bracket, or all of it if there is
/// none.
pub open spec fn after_tag(s: Seq<char>) -> Seq<char> {
    if s.contains('>') {
        s.skip(s.index_of_first('>')->0 + 1)
    } else {
        s
    }
}

/// The text of an HTML body: what stands outside the tags, piece by piece.
pub open spec fn untagged(html: Seq<char>) -> Seq<char> {
    let pieces = text::split(spaced(html), '<');
    text::join(pieces.map_values(|s: Seq<char>| text::trim(after_tag(s))), " "@)
}

/// The body of a mail: its text, or else what its HTML says.
pub open spec fn body_text(m: PartsView) -> Result<Seq<char>, ErrorView> {
    match (m.text_body, m.html_body) {
        (Some(t), _) => Ok(t),
        (None, Some(h)) => Ok(untagged(h)),
        (None, None) => Err(ErrorView::EmailParseError("No body found"@)),
    }
}

/// The text of an HTML body.
fn strip_tags(html: &str) -> (r: String)
    ensures
        r@ == untagged(html@),
{
    let v = text::chars_of(html);
    let mut wide = String::new();
    let mut i: usize = 0;
    while i < v.len()
        invariant
            i <= v@.len(),
            v@ == html@,
            wide@ == spaced(html@.take(i as int)),
        decreases v@.len() - i,
    {
        assert(html@.take(i + 1).drop_last() == html@.take(i as int));
        if v[i] == '<' {
            wide.push(' ');
        }
        wide.push(v[i]);
        i = i + 1;
    }
    assert(html@.take(i as int) == html@);
    let pieces = text::split_on(wide.as_str(), '<');
    let ghost all = text::views(pieces@);
    let ghost goal = all.map_values(|s: Seq<char>| text::trim(after_tag(s)));
    let mut out: Vec<String> = Vec::new();
    let mut k: usize = 0;
    while k < pieces.len()
        invariant
            k <= pieces@.len(),
            all == text::views(pieces@),
            goal == all.map_values(|s: Seq<char>| text::trim(after_tag(s))),
            text::views(out@) == goal.take(k as int),
        decreases pieces@.len() - k,
    {
        let p = text_after_tag(pieces[k].as_str());
        assert(all[k as int] == pieces@[k as int]@);
        let ghost before = text::views(out@);
        let ghost pv = p@;
        out.push(p);
        k = k + 1;
        assert(text::views(out@) == before.push(pv));
        assert(goal.take(k as int) == goal.take(k - 1).push(goal[k - 1]));
    }
    assert(goal.take(k as int) == goal);
    text::join_with(&out, " ")
}

/// What a piece says outside its tag, without white space around it.
fn text_after_tag(s: &str) -> (r: String)
    ensures
        r@ == text::trim(after_tag(s@)),
{
    let v = text::chars_of(s);
    let mut i: usize = 0;
    while i < v.len()
        invariant
            i <= v@.len(),
            v@ == s@,
            forall|k: int| 0 <= k < i ==> v@[k] != '>',
        decreases v@.len() - i,
    {
        if v[i] == '>' {
            let (a, b): (usize, usize) = text::trim_range(&v, i + 1, v.len());
            proof {
                assert(s@[i as int] == '>');
                assert(s@.contains('>'));
                s@.index_of_first_ensures('>');
                let f = s@.index_of_first('>')->0;
                assert(f == i);
                assert(v@.subrange(i + 1, v@.len() as int) == s@.skip(i + 1));
            }
            return text::string_of(&v, a, b);
        }
        i = i + 1;
    }
    let (a, b): (usize, usize) = text::trim_range(&v, 0, v.len());
    proof {
        assert(!s@.contains('>'));
        assert(v@.subrange(0, v@.len() as int) == s@);
    }
    text::string_of(&v, a, b)
}

/// Takes the body out of a mail.
pub fn extract_body(m: &MailParts) -> (r: Result<String, AntieError>)
    ensures
        match body_text(m@) {
            Ok(t) => r matches Ok(got) && got@ == t,
            Err(e) => r matches Err(got) && got@ == e,
        },
{
    match &m.text_body {
        Some(t) => Ok(t.clone()),
        None => match &m.html_body {
            Some(h) => Ok(strip_tags(h.as_str())),
            None => Err(AntieError::mail("No body found")),
        },
    }
}

// ---------------------------------------------------------------------------
// Bodies
// ---------------------------------------------------------------------------

/// A text without its white space.
pub open spec fn dense(s: Seq<char>) -> Seq<char>
    decreases s.len(),
{
    if s.len() == 0 {
        s
    } else if text::is_white(s.last()) {
        dense(s.drop_last())
    } else {
        dense(s.drop_last()).push(s.last())
    }
}

/// The bytes that a body carries: its Base64 decoding, white space aside, which
/// must not be empty.
pub open spec fn body_bytes(body: Seq<char>) -> Result<Seq<u8>, ErrorView> {
    match base64_decoded(dense(body)) {
        Err(e) => Err(ErrorView::EmailParseError("Base64 decode failed: "@ + e)),
        Ok(b) => if b.len() == 0 {
            Err(ErrorView::EmailParseError("Empty payload"@))
        } else {
            Ok(b)
        },
    }
}

/// What is decoded holds no white space, and is the body with its white space left out and
/// nothing else: what is left of two texts is what is left of one, followed by what is left of
/// the other.
pub proof fn law_white_space_is_left_out(a: Seq<char>, b: Seq<char>, c: char)
    ensures
        dense(a + b) == dense(a) + dense(b),
        text::is_white(c) ==> dense(seq![c]) == Seq::<char>::empty(),
        !text::is_white(c) ==> dense(seq![c]) == seq![c],
        forall|i: int| 0 <= i < dense(b).len() ==> !text::is_white(#[trigger] dense(b)[i]),
    decreases b.len(),
{
    reveal_with_fuel(dense, 2);
    assert(seq![c].drop_last() == Seq::<char>::empty());
    assert(Seq::<char>::empty().push(c) == seq![c]);
    if b.len() == 0 {
        assert(a + b == a);
        assert(dense(a) + dense(b) == dense(a));
    } else {
        law_white_space_is_left_out(a, b.drop_last(), c);
        assert((a + b).drop_last() == a + b.drop_last());
        assert((a + b).last() == b.last());
        if !text::is_white(b.last()) {
            assert((dense(a) + dense(b.drop_last())).push(b.last()) == dense(a) + dense(b.drop_last()).push(
                b.last(),
            ));
        }
    }
}

/// White space anywhere in a body, such as the line ends that mail software puts there, does not
/// change the bytes that it carries.
pub proof fn law_line_ends_change_no_bytes(a: Seq<char>, space: Seq<char>, b: Seq<char>)
    requires
        forall|i: int| 0 <= i < space.len() ==> text::is_white(#[trigger] space[i]),
    ensures
        dense(space) == Seq::<char>::empty(),
        body_bytes(a + space + b) == body_bytes(a + b),
        body_bytes(a + "\r\n"@ + b) == body_bytes(a + b),
    decreases space.len(),
{
    law_white_space_is_left_out(a + space, b, ' ');
    law_white_space_is_left_out(a, space, ' ');
    law_white_space_is_left_out(a, b, ' ');
    reveal_strlit("\r\n");
    law_white_space_is_left_out(a + "\r\n"@, b, ' ');
    law_white_space_is_left_out(a, "\r\n"@, ' ');
    law_white_space_is_left_out(seq!['\r'], seq!['\n'], '\r');
    law_white_space_is_left_out(seq!['\r'], seq!['\n'], '\n');
    assert("\r\n"@ == seq!['\r'] + seq!['\n']);
    assert(dense(a) + Seq::<char>::empty() == dense(a));
    if space.len() > 0 {
        let t = space.drop_last();
        assert forall|i: int| 0 <= i < t.len() implies text::is_white(#[trigger] t[i]) by {
            assert(t[i] == space[i]);
        }
        law_line_ends_change_no_bytes(a, t, b);
        assert(text::is_white(space[space.len() - 1]));
    }
}

/// A body carries bytes exactly if its text without white space is the Base64 form of something:
/// of that something, and never of nothing.
pub proof fn law_body_carries_what_it_decodes_to(body: Seq<char>, b: Seq<u8>)
    ensures
        body_bytes(body) == Ok::<Seq<u8>, ErrorView>(b) <==> b.len() > 0 && base64_decoded(dense(body)) == good(b),
        base64_decoded(dense(body)) is Err ==> body_bytes(body) is Err,
        body_bytes(Seq::empty()) == body_bytes(" \r\n\t"@),
{
    reveal_strlit(" \r\n\t");
    reveal_with_fuel(dense, 5);
    let s = " \r\n\t"@;
    assert(s.drop_last().drop_last().drop_last().drop_last().len() == 0);
    assert(dense(s) == Seq::<char>::empty());
}

/// White space aside, nothing is lost of a text without any, nor is a line end
/// behind it kept.
proof fn lemma_dense_line(s: Seq<char>)
    requires
        forall|i: int| 0 <= i < s.len() ==> is_base64_char(#[trigger] s[i]),
    ensures
        dense(s + "\r\n"@) == s,
{
    reveal_strlit("\r\n");
    let t = s + "\r\n"@;
    assert(t.drop_last().drop_last() == s);
    assert(t.last() == '\n' && t.drop_last().last() == '\r');
    reveal_with_fuel(dense, 3);
    lemma_dense_keeps(s);
}

proof fn lemma_dense_keeps(s: Seq<char>)
    requires
        forall|i: int| 0 <= i < s.len() ==> is_base64_char(#[trigger] s[i]),
    ensures
        dense(s) == s,
    decreases s.len(),
{
    if s.len() > 0 {
        assert forall|i: int| 0 <= i < s.drop_last().len() implies is_base64_char(
            #[trigger] s.drop_last()[i],
        ) by {
            assert(s.drop_last()[i] == s[i]);
        }
        lemma_dense_keeps(s.drop_last());
        assert(is_base64_char(s[s.len() - 1]));
        assert(s.drop_last().push(s.last()) == s);
    }
}

/// Decodes a body to the bytes that it carries.
pub fn decode_body(body: &str) -> (r: Result<Vec<u8>, AntieError>)
    ensures
        match body_bytes(body@) {
            Ok(b) => r matches Ok(got) && got@ == b,
            Err(e) => r matches Err(got) && got@ == e,
        },
{
    let v = text::chars_of(body);
    let mut cleaned = String::new();
    let mut i: usize = 0;
    while i < v.len()
        invariant
            i <= v@.len(),
            v@ == body@,
            cleaned@ == dense(body@.take(i as int)),
        decreases v@.len() - i,
    {
        assert(body@.take(i + 1).drop_last() == body@.take(i as int));
        if !text::is_white_char(v[i]) {
            cleaned.push(v[i]);
        }
        i = i + 1;
    }
    assert(body@.take(i as int) == body@);
    match base64_decode(cleaned.as_str()) {
        Err(e) => Err(
            AntieError::EmailParseError(labelled("Base64 decode failed: ", e.as_str())),
        ),
        Ok(b) => if b.len() == 0 {
            Err(AntieError::mail("Empty payload"))
        } else {
            Ok(b)
        },
    }
}

/// An envelope around a request.
pub enum UmpEnvelope {
    /// An open one, with the request inside.
    Plain { ump_bytes: Vec<u8> },
    /// A sealed one.
    Encrypted,
}

/// The mathematical value of a [`UmpEnvelope`].
pub enum EnvelopeView {
    Plain(Seq<u8>),
    Encrypted,
}

impl View for UmpEnvelope {
    type V = EnvelopeView;

    open spec fn view(&self) -> EnvelopeView {
        match *self {
            UmpEnvelope::Plain { ump_bytes } => EnvelopeView::Plain(ump_bytes@),
            UmpEnvelope::Encrypted => EnvelopeView::Encrypted,
        }
    }
}

/// Why a body gave no request.
pub enum DecodeError {
    /// A sealed envelope could not be opened.
    DecryptFailed,
    /// Anything else.
    Other(AntieError),
}

/// The mathematical value of a [`DecodeError`].
pub enum DecodeView {
    DecryptFailed,
    Other(ErrorView),
}

impl View for DecodeError {
    type V = DecodeView;

    open spec fn view(&self) -> DecodeView {
        match *self {
            DecodeError::DecryptFailed => DecodeView::DecryptFailed,
            DecodeError::Other(e) => DecodeView::Other(e@),
        }
    }
}

/// Whether requests of a type come in an envelope: all but those that
/// validators send each other.
pub open spec fn in_envelope(kind: Seq<char>) -> bool {
    kind != "peer_audit_request"@ && kind != "peer_audit_response"@ && kind != "fanout_relay"@
}

/// Whether requests of a type come in an envelope.
pub fn requires_envelope(message_type: &str) -> (r: bool)
    ensures
        r == in_envelope(message_type@),
{
    !(text::same_text(message_type, "peer_audit_request") || text::same_text(
        message_type,
        "peer_audit_response",
    ) || text::same_text(message_type, "fanout_relay"))
}

/// The first bytes, up to thirty-two.
pub open spec fn first_bytes(b: Seq<u8>) -> Seq<u8> {
    if b.len() <= 32 {
        b
    } else {
        b.take(32)
    }
}

/// The request inside the bytes of a body, given the envelope that they make up
/// (if they do) and what is sealed in it (if that can be told). A type of
/// request comes either always or never in an envelope.
pub open spec fn unwrapped(
    kind: Seq<char>,
    bytes: Seq<u8>,
    envelope: Option<EnvelopeView>,
    opened: Option<Seq<u8>>,
) -> Result<Seq<u8>, DecodeView> {
    if in_envelope(kind) {
        match envelope {
            Some(EnvelopeView::Plain(inner)) => Ok(inner),
            Some(EnvelopeView::Encrypted) => match opened {
                Some(inner) => Ok(inner),
                None => Err(DecodeView::DecryptFailed),
            },
            None => Err(
                DecodeView::Other(
                    ErrorView::EmailParseError(
                        "wire format violation: message type "@ + text::str_debug_text(kind)
                            + " requires UmpEnvelope, body parses as raw CBOR ("@ + text::dec(
                            bytes.len(),
                        ) + " bytes, hex prefix "@ + text::hex_text(first_bytes(bytes)) + ")"@,
                    ),
                ),
            ),
        }
    } else if envelope is Some {
        Err(
            DecodeView::Other(
                ErrorView::EmailParseError(
                    "wire format violation: message type "@ + text::str_debug_text(kind)
                        + " ships raw CBOR but body parses as UmpEnvelope"@,
                ),
            ),
        )
    } else {
        Ok(bytes)
    }
}

/// Takes the request out of the bytes of a body. `envelope` is what the bytes
/// are as an envelope, `opened` what a sealed one was found to hold.
pub fn unwrap_by_format(
    message_type: &str,
    decoded: Vec<u8>,
    envelope: Option<UmpEnvelope>,
    opened: Option<Vec<u8>>,
) -> (r: Result<Vec<u8>, DecodeError>)
    ensures
        match unwrapped(message_type@, decoded@, payload::opt(envelope), payload::opt(opened)) {
            Ok(b) => r matches Ok(got) && got@ == b,
            Err(e) => r matches Err(got) && got@ == e,
        },
{
    if requires_envelope(message_type) {
        match envelope {
            Some(UmpEnvelope::Plain { ump_bytes }) => Ok(ump_bytes),
            Some(UmpEnvelope::Encrypted) => match opened {
                Some(b) => Ok(b),
                None => Err(DecodeError::DecryptFailed),
            },
            None => {
                let mut m = String::from_str("wire format violation: message type ");
                m.append(text::str_debug_string(message_type).as_str());
                m.append(" requires UmpEnvelope, body parses as raw CBOR (");
                text::push_dec(&mut m, decoded.len() as u64);
                m.append(" bytes, hex prefix ");
                let n: usize = if decoded.len() <= 32 {
                    decoded.len()
                } else {
                    32
                };
                let prefix = vstd::slice::slice_subrange(decoded.as_slice(), 0, n);
                assert(prefix@ == first_bytes(decoded@));
                m.append(text::hex_encode(prefix).as_str());
                m.append(")");
                Err(DecodeError::Other(AntieError::EmailParseError(m)))
            },
        }
    } else if envelope.is_some() {
        let mut m = String::from_str("wire format violation: message type ");
        m.append(text::str_debug_string(message_type).as_str());
        m.append(" ships raw CBOR but body parses as UmpEnvelope");
        Err(DecodeError::Other(AntieError::EmailParseError(m)))
    } else {
        Ok(decoded)
    }
}

/// What the general CBOR decoder says against bytes, if anything.
pub uninterp spec fn cbor_fault(b: Seq<u8>) -> Option<Seq<char>>;

/// `ciborium::from_reader` into `ciborium::Value`: the text of its error, if
/// there is one.
#[verifier::external_body]
fn cbor_fault_string(b: &[u8]) -> (r: Option<String>)
    ensures
        payload::opt(r) == cbor_fault(b@),
{
    ciborium::from_reader::<ciborium::Value, &[u8]>(b).err().map(|e| e.to_string())
}

/// What a request holds: it must be CBOR that stands for a JSON value with the
/// fields of a payload.
pub open spec fn request_of(b: Seq<u8>) -> Result<PayloadView, ErrorView> {
    match cbor_fault(b) {
        Some(e) => Err(ErrorView::EmailParseError("CBOR decode failed: "@ + e)),
        None => match cbor::item_at(b, 0, 0) {
            Err(e) => Err(ErrorView::EmailParseError("CBOR→JSON failed: "@ + e)),
            Ok((j, _)) => payload::payload_of(j, b),
        },
    }
}

/// Reads a request.
pub fn decode_payload_inner(decoded: Vec<u8>) -> (r: Result<AntiePayload, AntieError>)
    ensures
        match request_of(decoded@) {
            Ok(p) => r matches Ok(got) && got@ == p,
            Err(e) => r matches Err(got) && got@ == e,
        },
{
    match cbor_fault_string(decoded.as_slice()) {
        Some(e) => {
            return Err(AntieError::EmailParseError(labelled("CBOR decode failed: ", e.as_str())));
        },
        None => {},
    }
    match cbor_to_json(decoded.as_slice()) {
        Err(e) => Err(AntieError::EmailParseError(labelled("CBOR→JSON failed: ", e.as_str()))),
        Ok(j) => payload::read_payload(&j, decoded),
    }
}

/// What a body holds, given what its bytes are as an envelope.
pub open spec fn payload_in(
    kind: Seq<char>,
    body: Seq<char>,
    envelope: Option<EnvelopeView>,
    opened: Option<Seq<u8>>,
) -> Result<PayloadView, DecodeView> {
    match body_bytes(body) {
        Err(e) => Err(DecodeView::Other(e)),
        Ok(b) => payload_inside(kind, b, envelope, opened),
    }
}

/// What the bytes of a body hold, given what they are as an envelope.
pub open spec fn payload_inside(
    kind: Seq<char>,
    b: Seq<u8>,
    envelope: Option<EnvelopeView>,
    opened: Option<Seq<u8>>,
) -> Result<PayloadView, DecodeView> {
    match unwrapped(kind, b, envelope, opened) {
        Err(e) => Err(e),
        Ok(inner) => match request_of(inner) {
            Err(e) => Err(DecodeView::Other(e)),
            Ok(p) => Ok(p),
        },
    }
}

/// Reads the request in the bytes of a body.
fn decode_inside(
    message_type: &str,
    decoded: Vec<u8>,
    envelope: Option<UmpEnvelope>,
    opened: Option<Vec<u8>>,
) -> (r: Result<AntiePayload, DecodeError>)
    ensures
        match payload_inside(
            message_type@,
            decoded@,
            payload::opt(envelope),
            payload::opt(opened),
        ) {
            Ok(p) => r matches Ok(got) && got@ == p,
            Err(e) => r matches Err(got) && got@ == e,
        },
{
    match unwrap_by_format(message_type, decoded, envelope, opened) {
        Err(e) => Err(e),
        Ok(inner) => match decode_payload_inner(inner) {
            Ok(p) => Ok(p),
            Err(e) => Err(DecodeError::Other(e)),
        },
    }
}

/// Reads the request in a body.
pub fn decode_payload_with_context(
    message_type: &str,
    body: &str,
    envelope: Option<UmpEnvelope>,
    opened: Option<Vec<u8>>,
) -> (r: Result<AntiePayload, DecodeError>)
    ensures
        match payload_in(message_type@, body@, payload::opt(envelope), payload::opt(opened)) {
            Ok(p) => r matches Ok(got) && got@ == p,
            Err(e) => r matches Err(got) && got@ == e,
        },
{
    match decode_body(body) {
        Err(e) => Err(DecodeError::Other(e)),
        Ok(b) => decode_inside(message_type, b, envelope, opened),
    }
}

/// The error for a sealed envelope that could not be opened.
pub open spec fn plain_error(e: DecodeView) -> ErrorView {
    match e {
        DecodeView::DecryptFailed => ErrorView::EmailParseError("envelope decryption failed"@),
        DecodeView::Other(e) => e,
    }
}

/// Reads the request in a body without the means to open a sealed envelope.
pub fn decode_payload(message_type: &str, body: &str, envelope: Option<UmpEnvelope>) -> (r: Result<
    AntiePayload,
    AntieError,
>)
    ensures
        match payload_in(message_type@, body@, payload::opt(envelope), None) {
            Ok(p) => r matches Ok(got) && got@ == p,
            Err(e) => r matches Err(got) && got@ == plain_error(e),
        },
{
    match decode_payload_with_context(message_type, body, envelope, None) {
        Ok(p) => Ok(p),
        Err(DecodeError::DecryptFailed) => Err(AntieError::mail("envelope decryption failed")),
        Err(DecodeError::Other(e)) => Err(e),
    }
}

// ---------------------------------------------------------------------------
// Whole mails
// ---------------------------------------------------------------------------

/// The header by which a sibling carrier finds the answer to its request.
pub const CORRELATE_HEADER: &'static str = "X-UNCLE-Correlate";

/// A request as it came by mail.
pub struct AntieEmail {
    /// Who sent it.
    pub from: String,
    /// Whom it was sent to.
    pub to: String,
    /// What it asks for, by its subject.
    pub message_type: String,
    /// Which request it is, by its subject.
    pub request_id: String,
    /// The id of the mail.
    pub message_id: Option<String>,
    /// What it holds.
    pub payload: AntiePayload,
    /// The mail as it came.
    pub raw: Vec<u8>,
    /// Under which name a sibling carrier waits for the answer.
    pub uncle_correlate: Option<[u8; 32]>,
}

/// The mathematical value of an [`AntieEmail`].
pub struct EmailView {
    pub from: Seq<char>,
    pub to: Seq<char>,
    pub message_type: Seq<char>,
    pub request_id: Seq<char>,
    pub message_id: Option<Seq<char>>,
    pub payload: PayloadView,
    pub raw: Seq<u8>,
    pub uncle_correlate: Option<Seq<u8>>,
}

/// What an optional name of thirty-two bytes stands for.
pub open spec fn opt_id(o: Option<[u8; 32]>) -> Option<Seq<u8>> {
    match o {
        Some(b) => Some(b@),
        None => None,
    }
}

impl View for AntieEmail {
    type V = EmailView;

    open spec fn view(&self) -> EmailView {
        EmailView {
            from: self.from@,
            to: self.to@,
            message_type: self.message_type@,
            request_id: self.request_id@,
            message_id: payload::opt(self.message_id),
            payload: self.payload@,
            raw: self.raw@,
            uncle_correlate: opt_id(self.uncle_correlate),
        }
    }
}

/// A mail of which all is read but the request inside.
pub struct Letter {
    pub from: String,
    pub to: String,
    pub message_type: String,
    pub request_id: String,
    pub message_id: Option<String>,
    pub uncle_correlate: Option<[u8; 32]>,
    /// The bytes that the body carries.
    pub body: Vec<u8>,
    /// The mail as it came.
    pub raw: Vec<u8>,
}

/// The mathematical value of a [`Letter`].
pub struct LetterView {
    pub from: Seq<char>,
    pub to: Seq<char>,
    pub message_type: Seq<char>,
    pub request_id: Seq<char>,
    pub message_id: Option<Seq<char>>,
    pub uncle_correlate: Option<Seq<u8>>,
    pub body: Seq<u8>,
    pub raw: Seq<u8>,
}

impl View for Letter {
    type V = LetterView;

    open spec fn view(&self) -> LetterView {
        LetterView {
            from: self.from@,
            to: self.to@,
            message_type: self.message_type@,
            request_id: self.request_id@,
            message_id: payload::opt(self.message_id),
            uncle_correlate: opt_id(self.uncle_correlate),
            body: self.body@,
            raw: self.raw@,
        }
    }
}

/// The text of an optional part, empty where it is missing.
pub open spec fn or_empty(o: Option<Seq<char>>) -> Seq<char> {
    match o {
        Some(s) => s,
        None => Seq::empty(),
    }
}

/// The name in a correlation header: sixty-four hexadecimal digits, white
/// space around them aside.
pub open spec fn correlate_of(o: Option<Seq<char>>) -> Option<Seq<u8>> {
    match o {
        Some(s) => if text::trim(s).len() == 64 && text::is_hex(text::trim(s)) {
            Some(text::hex_bytes(text::trim(s)))
        } else {
            None
        },
        None => None,
    }
}

/// Whether `l` is the letter with the given parts.
pub open spec fn is_letter(l: LetterView, m: PartsView, raw: Seq<u8>) -> bool {
    &&& l.from == or_empty(m.from)
    &&& l.to == or_empty(m.to)
    &&& is_subject(or_empty(m.subject), l.message_type, l.request_id)
    &&& l.message_id == m.message_id
    &&& l.uncle_correlate == correlate_of(m.correlate)
    &&& body_text(m) matches Ok(t) && body_bytes(t) matches Ok(b) && b == l.body
    &&& l.raw == raw
}

/// Whether a subject names a message.
pub open spec fn names_message(subject: Seq<char>) -> bool {
    exists|kind: Seq<char>, id: Seq<char>| is_subject(subject, kind, id)
}

/// What is wrong with a mail, its request aside.
pub open spec fn letter_error(m: Option<PartsView>) -> Option<ErrorView> {
    match m {
        None => Some(ErrorView::EmailParseError("Failed to parse email"@)),
        Some(m) => if !names_message(or_empty(m.subject)) {
            Some(subject_error(or_empty(m.subject)))
        } else {
            match body_text(m) {
                Err(e) => Some(e),
                Ok(t) => match body_bytes(t) {
                    Err(e) => Some(e),
                    Ok(_) => None,
                },
            }
        },
    }
}

/// The name in a correlation header.
fn read_correlate(header: &Option<String>) -> (r: Option<[u8; 32]>)
    ensures
        opt_id(r) == correlate_of(payload::opt(*header)),
{
    match header {
        None => None,
        Some(h) => {
            let t = text::trimmed(h.as_str());
            match text::hex_decode(t.as_str()) {
                Err(_) => None,
                Ok(b) => if b.len() == 32 {
                    Some(to_id(&b))
                } else {
                    None
                },
            }
        },
    }
}

/// Thirty-two bytes as an array.
pub fn to_id(b: &Vec<u8>) -> (r: [u8; 32])
    requires
        b@.len() == 32,
    ensures
        r@ == b@,
{
    let mut a: [u8; 32] = [0u8; 32];
    let mut i: usize = 0;
    while i < 32
        invariant
            i <= 32,
            b@.len() == 32,
            forall|k: int| 0 <= k < i ==> a@[k] == b@[k],
        decreases 32 - i,
    {
        a[i] = b[i];
        i = i + 1;
    }
    assert(a@ == b@);
    a
}

/// The text of an optional part, empty where it is missing.
fn text_or_empty(o: Option<String>) -> (r: String)
    ensures
        r@ == or_empty(payload::opt(o)),
{
    match o {
        Some(s) => s,
        None => String::new(),
    }
}

/// Reads all of a mail but the request inside.
pub fn read_letter(raw: &[u8]) -> (r: Result<Letter, AntieError>)
    ensures
        match letter_error(mail_parts(raw@)) {
            Some(e) => r matches Err(got) && got@ == e,
            None => r matches Ok(l) && is_letter(l@, mail_parts(raw@)->0, raw@),
        },
{
    if !mail_limits::is_parsable(raw) {
        return Err(AntieError::mail("Failed to parse email"));
    }
    match parse_mail(raw, CORRELATE_HEADER) {
        None => Err(AntieError::mail("Failed to parse email")),
        Some(m) => letter_from(m, raw),
    }
}

/// Makes a letter of the parts of a mail.
pub fn letter_from(m: MailParts, raw: &[u8]) -> (r: Result<Letter, AntieError>)
    ensures
        match letter_error(Some(m@)) {
            Some(e) => r matches Err(got) && got@ == e,
            None => r matches Ok(l) && is_letter(l@, m@, raw@),
        },
{
    let uncle_correlate = read_correlate(&m.correlate);
    let body_or = extract_body(&m);
    let subject = text_or_empty(m.subject);
    let (message_type, request_id) = match parse_subject(subject.as_str()) {
        Ok(s) => s,
        Err(e) => {
            return Err(e);
        },
    };
    assert(names_message(subject@));
    let body_in_text = match body_or {
        Ok(t) => t,
        Err(e) => {
            return Err(e);
        },
    };
    let body = match decode_body(body_in_text.as_str()) {
        Ok(b) => b,
        Err(e) => {
            return Err(e);
        },
    };
    Ok(
        Letter {
            from: text_or_empty(m.from),
            to: text_or_empty(m.to),
            message_type,
            request_id,
            message_id: m.message_id,
            uncle_correlate,
            body,
            raw: vstd::slice::slice_to_vec(raw),
        },
    )
}

/// What came out of a mail.
pub enum ParseOutcome {
    /// The request.
    Parsed(Box<AntieEmail>),
    /// A sealed envelope that could not be opened.
    DecryptFailed,
}

/// The request in a letter with the given payload.
pub open spec fn email_of(l: LetterView, p: PayloadView) -> EmailView {
    EmailView {
        from: l.from,
        to: l.to,
        message_type: l.message_type,
        request_id: l.request_id,
        message_id: l.message_id,
        payload: p,
        raw: l.raw,
        uncle_correlate: l.uncle_correlate,
    }
}

/// Whether an outcome is what a letter gives, given what its body is as an
/// envelope.
pub open spec fn outcome_of(
    r: Result<ParseOutcome, AntieError>,
    l: LetterView,
    envelope: Option<EnvelopeView>,
    opened: Option<Seq<u8>>,
) -> bool {
    match payload_inside(l.message_type, l.body, envelope, opened) {
        Ok(p) => r matches Ok(ParseOutcome::Parsed(e)) && e@ == email_of(l, p),
        Err(DecodeView::DecryptFailed) => r matches Ok(ParseOutcome::DecryptFailed),
        Err(DecodeView::Other(e)) => r matches Err(got) && got@ == e,
    }
}

/// Takes the request out of a letter. `envelope` is what its body is as an
/// envelope, `opened` what a sealed one was found to hold.
pub fn open_letter(
    letter: Letter,
    envelope: Option<UmpEnvelope>,
    opened: Option<Vec<u8>>,
) -> (r: Result<ParseOutcome, AntieError>)
    ensures
        outcome_of(r, letter@, payload::opt(envelope), payload::opt(opened)),
{
    match decode_inside(letter.message_type.as_str(), letter.body, envelope, opened) {
        Err(DecodeError::DecryptFailed) => Ok(ParseOutcome::DecryptFailed),
        Err(DecodeError::Other(e)) => Err(e),
        Ok(payload) => Ok(
            ParseOutcome::Parsed(
                Box::new(
                    AntieEmail {
                        from: letter.from,
                        to: letter.to,
                        message_type: letter.message_type,
                        request_id: letter.request_id,
                        message_id: letter.message_id,
                        payload,
                        raw: letter.raw,
                        uncle_correlate: letter.uncle_correlate,
                    },
                ),
            ),
        ),
    }
}

/// Whether an outcome is what a raw mail gives.
pub open spec fn mail_outcome(
    r: Result<ParseOutcome, AntieError>,
    raw: Seq<u8>,
    envelope: Option<EnvelopeView>,
    opened: Option<Seq<u8>>,
) -> bool {
    let m = mail_parts(raw);
    match letter_error(m) {
        Some(e) => r matches Err(got) && got@ == e,
        None => exists|l: LetterView| #[trigger] is_letter(l, m->0, raw) && outcome_of(r, l, envelope, opened),
    }
}

/// Takes the request out of a raw mail, and tells a sealed envelope that could
/// not be opened from other failures.
pub fn parse_email_outcome(
    raw: &[u8],
    envelope: Option<UmpEnvelope>,
    opened: Option<Vec<u8>>,
) -> (r: Result<ParseOutcome, AntieError>)
    ensures
        mail_outcome(r, raw@, payload::opt(envelope), payload::opt(opened)),
{
    match read_letter(raw) {
        Err(e) => Err(e),
        Ok(letter) => open_letter(letter, envelope, opened),
    }
}

/// Whether a result is an outcome with a sealed envelope counted as an error.
pub open spec fn flattened(
    r: Result<AntieEmail, AntieError>,
    o: Result<ParseOutcome, AntieError>,
) -> bool {
    match o {
        Ok(ParseOutcome::Parsed(e)) => r matches Ok(got) && got == *e,
        Ok(ParseOutcome::DecryptFailed) => r matches Err(got) && got@ == ErrorView::EmailParseError(
            "envelope decryption failed"@,
        ),
        Err(e) => r matches Err(got) && got == e,
    }
}

/// Takes the request out of a raw mail.
pub fn parse_email_with_context(
    raw: &[u8],
    envelope: Option<UmpEnvelope>,
    opened: Option<Vec<u8>>,
) -> (r: Result<AntieEmail, AntieError>)
    ensures
        exists|o: Result<ParseOutcome, AntieError>| #[trigger]
            mail_outcome(o, raw@, payload::opt(envelope), payload::opt(opened)) && flattened(r, o),
{
    let o = parse_email_outcome(raw, envelope, opened);
    let ghost seen = o;
    match o {
        Ok(ParseOutcome::Parsed(e)) => Ok(*e),
        Ok(ParseOutcome::DecryptFailed) => {
            let r = Err(AntieError::mail("envelope decryption failed"));
            assert(flattened(r, seen));
            r
        },
        Err(e) => Err(e),
    }
}

/// Takes the request out of a raw mail without the means to open a sealed
/// envelope.
pub fn parse_email(raw: &[u8], envelope: Option<UmpEnvelope>) -> (r: Result<AntieEmail, AntieError>)
    ensures
        exists|o: Result<ParseOutcome, AntieError>| #[trigger]
            mail_outcome(o, raw@, payload::opt(envelope), None) && flattened(r, o),
{
    parse_email_with_context(raw, envelope, None)
}

// ---------------------------------------------------------------------------
// Notices
// ---------------------------------------------------------------------------

/// Whether `bytes` are a notice: a mail of the given kind about a request with
/// a fresh id.
pub open spec fn is_notice(
    bytes: Seq<u8>,
    from: Seq<char>,
    to: Seq<char>,
    kind: Seq<char>,
    body: Seq<u8>,
) -> bool {
    exists|id: Seq<char>| is_uuid(id) && #[trigger] is_mail(bytes, from, to, kind, id, None, body)
}

/// Writes a notice.
fn write_notice(from: &str, to: &str, kind: &str, body: &[u8]) -> (r: Vec<u8>)
    ensures
        is_notice(r@, from@, to@, kind@, body@),
        reads_back(body@),
{
    let id = random_uuid();
    write_mail(from, to, kind, id.as_str(), None, body)
}

/// The CBOR form of a map whose values are given in CBOR.
pub open spec fn cbor_map(fields: Seq<(Seq<char>, Seq<u8>)>) -> Seq<u8> {
    cbor::head(5, fields.len()) + cbor_fields(fields)
}

/// The CBOR forms of fields, one after the other.
pub open spec fn cbor_fields(fields: Seq<(Seq<char>, Seq<u8>)>) -> Seq<u8>
    decreases fields.len(),
{
    if fields.len() == 0 {
        Seq::empty()
    } else {
        cbor_fields(fields.drop_last()) + cbor::text_item(fields.last().0) + fields.last().1
    }
}

/// A map is written as its fields one after the other, each as its name and its value.
pub proof fn law_map_is_its_fields(a: Seq<(Seq<char>, Seq<u8>)>, b: Seq<(Seq<char>, Seq<u8>)>, name: Seq<char>, value: Seq<u8>)
    ensures
        cbor_fields(a + b) == cbor_fields(a) + cbor_fields(b),
        cbor_fields(seq![(name, value)]) == cbor::text_item(name) + value,
        cbor_map(a) == cbor::head(5, a.len()) + cbor_fields(a),
    decreases b.len(),
{
    reveal_with_fuel(cbor_fields, 2);
    let one = seq![(name, value)];
    assert(one.drop_last().len() == 0);
    assert(Seq::<u8>::empty() + cbor::text_item(name) == cbor::text_item(name));
    if b.len() == 0 {
        assert(a + b == a);
        assert(cbor_fields(a) + cbor_fields(b) == cbor_fields(a));
    } else {
        law_map_is_its_fields(a, b.drop_last(), name, value);
        assert((a + b).drop_last() == a + b.drop_last());
        assert((a + b).last() == b.last());
        assert(cbor_fields(a) + cbor_fields(b.drop_last()) + cbor::text_item(b.last().0) + b.last().1
            == cbor_fields(a) + (cbor_fields(b.drop_last()) + cbor::text_item(b.last().0) + b.last().1));
    }
}

/// Tells a wallet downstream that a scar has healed.
pub fn build_scar_heal_email(from: &str, to: &str, proof_data: &JsonValue, target_wallet_id: &str) -> (r:
    Vec<u8>)
    ensures
        is_notice(
            r@,
            from@,
            to@,
            "scar_heal"@,
            cbor::cbor(
                Json::Object(
                    json::object_of(
                        seq![
                            ("scar_recovery_proof"@, proof_data@),
                            ("target_wallet_id"@, Json::Str(target_wallet_id@)),
                        ],
                    ),
                ),
            ),
        ),
{
    let mut entries: Vec<(String, JsonValue)> = Vec::new();
    entries.push((String::from_str("scar_recovery_proof"), proof_data.clone()));
    entries.push(
        (String::from_str("target_wallet_id"), JsonValue::Str(String::from_str(target_wallet_id))),
    );
    assert(json::entries_view(entries@) == seq![
        ("scar_recovery_proof"@, proof_data@),
        ("target_wallet_id"@, Json::Str(target_wallet_id@)),
    ]);
    let body = json_to_cbor(&JsonValue::object(entries));
    write_notice(from, to, "scar_heal", body.as_slice())
}

/// The fields of a cheque delivery.
pub open spec fn cheque_fields(cheque: Seq<u8>, fact_chain: Option<Seq<u8>>) -> Seq<
    (Seq<char>, Seq<u8>),
> {
    match fact_chain {
        Some(c) => seq![("cheque"@, cheque), ("cheque_fact_chain"@, c)],
        None => seq![("cheque"@, cheque)],
    }
}

/// Appends a field of a CBOR map.
fn push_field(out: &mut Vec<u8>, name: &str, value: &[u8])
    ensures
        final(out)@ == old(out)@ + cbor::text_item(name@) + value@,
{
    cbor::encode_text(name, out);
    cbor::push_bytes(out, value);
}

/// Delivers a cheque to its receiver. The cheque and the sender's fact chain
/// are given in CBOR.
pub fn build_cheque_delivery_email(
    from: &str,
    to: &str,
    cheque: &[u8],
    sender_fact_chain: Option<&[u8]>,
) -> (r: Vec<u8>)
    ensures
        is_notice(
            r@,
            from@,
            to@,
            "cheque"@,
            cbor_map(
                cheque_fields(
                    cheque@,
                    match sender_fact_chain {
                        Some(c) => Some(c@),
                        None => None,
                    },
                ),
            ),
        ),
{
    let ghost chain = match sender_fact_chain {
        Some(c) => Some(c@),
        None => None,
    };
    let ghost fields = cheque_fields(cheque@, chain);
    let mut body: Vec<u8> = Vec::new();
    cbor::encode_head(
        5,
        if sender_fact_chain.is_some() {
            2
        } else {
            1
        },
        &mut body,
    );
    push_field(&mut body, "cheque", cheque);
    match sender_fact_chain {
        Some(c) => push_field(&mut body, "cheque_fact_chain", c),
        None => {},
    }
    proof {
        reveal_with_fuel(cbor_fields, 3);
        if chain is Some {
            assert(fields.drop_last() == seq![("cheque"@, cheque@)]);
            assert(fields.drop_last().drop_last().len() == 0);
        } else {
            assert(fields.drop_last().len() == 0);
        }
        assert(body@ == cbor_map(fields));
    }
    write_notice(from, to, "cheque", body.as_slice())
}

/// Asks a receiver to consent to a scarred transfer. The notification is given
/// in CBOR.
pub fn build_scar_consent_email(from: &str, to: &str, notification: &[u8]) -> (r: Vec<u8>)
    ensures
        is_notice(
            r@,
            from@,
            to@,
            "scar_consent"@,
            cbor_map(seq![("scar_consent"@, notification@)]),
        ),
{
    let mut body: Vec<u8> = Vec::new();
    cbor::encode_head(5, 1, &mut body);
    push_field(&mut body, "scar_consent", notification);
    proof {
        let fields = seq![("scar_consent"@, notification@)];
        reveal_with_fuel(cbor_fields, 2);
        assert(fields.drop_last().len() == 0);
        assert(body@ == cbor_map(fields));
    }
    write_notice(from, to, "scar_consent", body.as_slice())
}

/// A body with one named value.
fn single(name: &str, value: &JsonValue) -> (r: Vec<u8>)
    ensures
        r@ == cbor::cbor(Json::Object(json::object_of(seq![(name@, value@)]))),
{
    let mut entries: Vec<(String, JsonValue)> = Vec::new();
    entries.push((String::from_str(name), value.clone()));
    assert(json::entries_view(entries@) == seq![(name@, value@)]);
    json_to_cbor(&JsonValue::object(entries))
}

/// Asks another validator to audit a transaction.
pub fn build_peer_audit_request_email(from: &str, to: &str, request: &JsonValue) -> (r: Vec<u8>)
    ensures
        is_notice(
            r@,
            from@,
            to@,
            "peer_audit_request"@,
            cbor::cbor(Json::Object(json::object_of(seq![("peer_audit_request"@, request@)]))),
        ),
{
    let body = single("peer_audit_request", request);
    write_notice(from, to, "peer_audit_request", body.as_slice())
}

/// Answers another validator's audit.
pub fn build_peer_audit_response_email(from: &str, to: &str, response: &JsonValue) -> (r: Vec<u8>)
    ensures
        is_notice(
            r@,
            from@,
            to@,
            "peer_audit_response"@,
            cbor::cbor(Json::Object(json::object_of(seq![("peer_audit_response"@, response@)]))),
        ),
{
    let body = single("peer_audit_response", response);
    write_notice(from, to, "peer_audit_response", body.as_slice())
}

/// Passes a fan-out message on to a peer.
pub fn build_fanout_relay_email(from: &str, to: &str, fanout_msg: &JsonValue) -> (r: Vec<u8>)
    ensures
        is_notice(
            r@,
            from@,
            to@,
            "fanout"@,
            cbor::cbor(
                Json::Object(
                    json::object_of(
                        seq![
                            ("message_type"@, Json::Str("fanout"@)),
                            ("fanout_message"@, fanout_msg@),
                        ],
                    ),
                ),
            ),
        ),
{
    let mut entries: Vec<(String, JsonValue)> = Vec::new();
    entries.push((String::from_str("message_type"), JsonValue::Str(String::from_str("fanout"))));
    entries.push((String::from_str("fanout_message"), fanout_msg.clone()));
    assert(json::entries_view(entries@) == seq![
        ("message_type"@, Json::Str("fanout"@)),
        ("fanout_message"@, fanout_msg@),
    ]);
    let body = json_to_cbor(&JsonValue::object(entries));
    write_notice(from, to, "fanout", body.as_slice())
}


/// An address is good if it has an at sign and stays on its line. One that does not is refused
/// as such, whatever else it holds.
pub proof fn law_good_addresses(addr: Seq<char>)
    ensures
        address_error(addr) is None <==> addr.contains('@') && !addr.contains('\r') && !addr.contains('\n'),
        addr.contains('\r') || addr.contains('\n') ==> address_error(addr) == Some(
            ErrorView::EmailParseError("Email address contains newline (header injection attempt)"@),
        ),
        !addr.contains('\r') && !addr.contains('\n') && !addr.contains('@') ==> address_error(addr) == Some(
            ErrorView::EmailParseError("Invalid email address: '"@ + addr + "'"@),
        ),
{
}

/// A message id stands in angle brackets: an identifier, a full stop and the time.
pub proof fn law_message_ids_stand_in_brackets(u: Seq<char>, t: i64)
    ensures
        message_id(u, t) == seq!['<'] + u + seq!['.'] + text::dec_int(t as int) + seq![
            '@',
            'a',
            'x',
            'i',
            'o',
            'm',
            '>',
        ],
{
    reveal_strlit("<");
    reveal_strlit(".");
    reveal_strlit("@axiom>");
    assert("<"@ =~= seq!['<']);
    assert("."@ =~= seq!['.']);
    assert("@axiom>"@ =~= seq!['@', 'a', 'x', 'i', 'o', 'm', '>']);
}

/// A space is put before each opening angle bracket, and nothing else changes.
pub proof fn law_spaces_stand_before_tags(a: Seq<char>, b: Seq<char>, c: char)
    ensures
        spaced(a + b) == spaced(a) + spaced(b),
        spaced(seq!['<']) == seq![' ', '<'],
        c != '<' ==> spaced(seq![c]) == seq![c],
        !a.contains('<') ==> spaced(a) == a,
    decreases a.len() + b.len(),
{
    reveal_with_fuel(spaced, 2);
    assert(seq!['<'].drop_last() =~= Seq::<char>::empty());
    assert(seq![c].drop_last() =~= Seq::<char>::empty());
    assert(spaced(seq!['<']) =~= seq![' ', '<']);
    assert(c != '<' ==> spaced(seq![c]) =~= seq![c]);
    if b.len() == 0 {
        assert(a + b =~= a);
        assert(spaced(a) + spaced(b) =~= spaced(a));
        if a.len() > 0 {
            law_spaces_stand_before_tags(a.drop_last(), b, c);
            if !a.contains('<') {
                assert forall|k: int| 0 <= k < a.drop_last().len() implies a.drop_last()[k] != '<' by {
                    assert(a[k] == a.drop_last()[k]);
                }
                assert(a[a.len() - 1] != '<');
                assert(spaced(a) =~= a);
            }
        }
    } else {
        law_spaces_stand_before_tags(a, b.drop_last(), c);
        assert((a + b).drop_last() =~= a + b.drop_last());
        assert((a + b).last() == b.last());
        assert(spaced(a + b) =~= spaced(a) + spaced(b));
    }
}

proof fn lemma_after_tag(tag: Seq<char>, rest: Seq<char>)
    requires
        !tag.contains('>'),
    ensures
        after_tag(tag) == tag,
        after_tag(tag + seq!['>'] + rest) == rest,
{
    let all = tag + seq!['>'] + rest;
    assert(all[tag.len() as int] == '>');
    assert(all.contains('>'));
    all.index_of_first_ensures('>');
    let i = all.index_of_first('>')->0;
    assert(i == tag.len()) by {
        if i < tag.len() {
            assert(tag[i] == all[i]);
        }
    }
    assert(all.skip(i + 1) =~= rest);
}

proof fn lemma_trim_space_behind(a: Seq<char>)
    ensures
        text::trim(a.push(' ')) == text::trim(a),
{
    let (w, v) = text::law_only_white_space_is_trimmed(a);
    let t = text::trim(a);
    let more = v.push(' ');
    assert forall|i: int| 0 <= i < more.len() implies text::is_white(#[trigger] more[i]) by {
        if i < v.len() {
            assert(text::is_white(v[i]));
        }
    }
    text::law_trimmed_is_what_stands_inside(w, t, more);
    assert(a.push(' ') =~= w + t + more);
}

/// The first piece of a text with tags is what stands before the first tag, and what stands
/// between tags is joined with spaces. Tags themselves are left out.
pub proof fn law_tags_are_left_out(tag: Seq<char>, words: Seq<char>, rest: Seq<char>)
    requires
        !tag.contains('<'),
        !tag.contains('>'),
        !words.contains('<'),
        !words.contains('>'),
    ensures
        untagged(words) == text::trim(words),
        untagged(tag + seq!['>'] + words) == text::trim(words),
        untagged(words + seq!['<'] + rest) == text::trim(words) + seq![' '] + untagged(rest),
        untagged(tag + seq!['>'] + words + seq!['<'] + rest) == text::trim(words) + seq![' '] + untagged(rest),
{
    let whole = tag + seq!['>'] + words;
    assert forall|k: int| 0 <= k < whole.len() implies whole[k] != '<' by {
        if k < tag.len() {
            assert(tag[k] == whole[k]);
        } else if k > tag.len() {
            assert(words[k - tag.len() - 1] == whole[k]);
        }
    }
    lemma_after_tag(words, rest);
    lemma_after_tag(tag, words);
    let longer = words.push(' ');
    assert forall|k: int| 0 <= k < longer.len() implies longer[k] != '>' by {
        if k < words.len() {
            assert(words[k] == longer[k]);
        }
    }
    lemma_after_tag(longer, rest);
    lemma_after_tag(tag, longer);
    assert(whole.push(' ') =~= tag + seq!['>'] + longer);
    lemma_untagged_piece(words, words, rest);
    lemma_untagged_piece(whole, words, rest);
}

proof fn lemma_untagged_piece(piece: Seq<char>, words: Seq<char>, rest: Seq<char>)
    requires
        !piece.contains('<'),
        after_tag(piece) == words,
        after_tag(piece.push(' ')) == words.push(' '),
    ensures
        untagged(piece) == text::trim(words),
        untagged(piece + seq!['<'] + rest) == text::trim(words) + seq![' '] + untagged(rest),
{
    reveal_strlit(" ");
    assert(" "@ =~= seq![' ']);
    let f = |s: Seq<char>| text::trim(after_tag(s));
    law_spaces_stand_before_tags(piece, seq!['<'], ' ');
    law_spaces_stand_before_tags(piece + seq!['<'], rest, ' ');
    text::law_first_piece_is_cut_off(piece, '<', rest);
    assert(seq![piece].map_values(f) =~= seq![text::trim(words)]);
    assert(untagged(piece) == text::trim(words));
    let own = piece.push(' ');
    assert forall|k: int| 0 <= k < own.len() implies own[k] != '<' by {
        if k < piece.len() {
            assert(piece[k] == own[k]);
        }
    }
    let tail = spaced(rest);
    text::law_first_piece_is_cut_off(own, '<', tail);
    text::lemma_split_pieces(tail, '<');
    assert(spaced(piece + seq!['<'] + rest) =~= own + seq!['<'] + tail);
    let others = text::split(tail, '<').map_values(f);
    lemma_trim_space_behind(words);
    assert((seq![own] + text::split(tail, '<')).map_values(f) =~= seq![text::trim(words)] + others);
    text::law_joined_part_by_part(seq![text::trim(words)], others, text::trim(words), " "@);
}

/// The body is the text of a mail where it has one, and else its HTML without the tags.
pub proof fn law_text_comes_before_html(m: PartsView)
    ensures
        m.text_body is Some ==> body_text(m) == Ok::<Seq<char>, ErrorView>(m.text_body->0),
        m.text_body is None && m.html_body is Some ==> body_text(m) == Ok::<Seq<char>, ErrorView>(
            untagged(m.html_body->0),
        ),
        body_text(m) is Err <==> m.text_body is None && m.html_body is None,
        body_text(m) is Err ==> body_text(m)->Err_0 == ErrorView::EmailParseError("No body found"@),
{
}

/// What comes out of an envelope: for most kinds what is inside it, for the others, which come
/// without one, the bytes themselves. Only a sealed envelope that could not be opened is
/// counted as such.
pub proof fn law_envelopes_are_unwrapped(
    kind: Seq<char>,
    bytes: Seq<u8>,
    envelope: Option<EnvelopeView>,
    opened: Option<Seq<u8>>,
    inner: Seq<u8>,
)
    ensures
        in_envelope(kind) ==> unwrapped(kind, bytes, Some(EnvelopeView::Plain(inner)), opened) == Ok::<
            Seq<u8>,
            DecodeView,
        >(inner),
        in_envelope(kind) ==> unwrapped(kind, bytes, Some(EnvelopeView::Encrypted), Some(inner)) == Ok::<
            Seq<u8>,
            DecodeView,
        >(inner),
        !in_envelope(kind) ==> unwrapped(kind, bytes, None, opened) == Ok::<Seq<u8>, DecodeView>(bytes),
        unwrapped(kind, bytes, envelope, opened) == Err::<Seq<u8>, DecodeView>(DecodeView::DecryptFailed)
            <==> in_envelope(kind) && envelope == Some(EnvelopeView::Encrypted) && opened is None,
        unwrapped(kind, bytes, envelope, opened) is Ok ==> (in_envelope(kind) <==> envelope is Some),
        in_envelope(kind) && envelope is None ==> unwrapped(kind, bytes, envelope, opened) is Err,
{
}

/// What is shown of bytes is their start, at most 32 of them.
pub proof fn law_only_the_start_is_shown(b: Seq<u8>)
    ensures
        first_bytes(b).len() <= 32,
        first_bytes(b).len() < 32 ==> first_bytes(b) == b,
        exists|rest: Seq<u8>| b == #[trigger] (first_bytes(b) + rest),
{
    let n = first_bytes(b).len() as int;
    assert(first_bytes(b) =~= b.take(n));
    assert(b =~= first_bytes(b) + b.skip(n));
}

/// A copy is owed to the transaction that a mail names in hexadecimal, with white space round
/// it or without; to no other text.
pub proof fn law_copies_are_for_named_transactions(id: Seq<u8>, w: Seq<char>, v: Seq<char>, s: Seq<char>)
    requires
        text::all_white(w),
        text::all_white(v),
    ensures
        id.len() == 32 ==> correlate_of(Some(w + text::hex_text(id) + v)) == Some(id),
        correlate_of(Some(s)) matches Some(b) ==> b.len() == 32 && text::trim(s).len() == 64 && text::is_hex(
            text::trim(s),
        ),
        text::is_hex(text::trim(s)) && text::trim(s).len() == 64 ==> correlate_of(Some(s)) is Some,
        correlate_of(None) is None,
{
    if id.len() == 32 {
        let h = text::hex_text(id);
        text::lemma_hex_round_trip(id);
        assert(text::is_hex_digit(h[0]) && text::is_hex_digit(h[63]));
        text::law_trimmed_is_what_stands_inside(w, h, v);
    }
}

/// A mail is a letter if it can be read, its subject names a message, and its body holds
/// something; and only then.
pub proof fn law_what_makes_a_letter(m: Option<PartsView>)
    ensures
        letter_error(m) is None <==> m is Some && names_message(or_empty(m->0.subject)) && body_text(m->0) is Ok
            && body_bytes(body_text(m->0)->Ok_0) is Ok,
        m is None ==> letter_error(m) == Some(ErrorView::EmailParseError("Failed to parse email"@)),
        m is Some && !names_message(or_empty(m->0.subject)) ==> letter_error(m) == Some(
            subject_error(or_empty(m->0.subject)),
        ),
        m is Some && m->0.subject is None ==> letter_error(m) is Some,
{
    if m is Some && m->0.subject is None {
        let none = Seq::<char>::empty();
        reveal_strlit("AXIOM/");
        if names_message(none) {
            let (kind, id) = choose|kind: Seq<char>, id: Seq<char>| is_subject(none, kind, id);
            assert(("AXIOM/"@ + kind + "/"@ + id).len() >= 6);
        }
    }
}

/// What a mail is parsed to is that mail: who sent it, to whom, what its subject names, what
/// it answers to, and its bytes as they came.
pub proof fn law_parsed_mail_is_the_mail(
    e: AntieEmail,
    raw: Seq<u8>,
    envelope: Option<EnvelopeView>,
    opened: Option<Seq<u8>>,
)
    requires
        mail_outcome(Ok(ParseOutcome::Parsed(Box::new(e))), raw, envelope, opened),
    ensures
        mail_parts(raw) matches Some(m) && {
            &&& e@.raw == raw
            &&& m.from is Some ==> e@.from == m.from->0
            &&& m.to is Some ==> e@.to == m.to->0
            &&& m.subject matches Some(s) && s == "AXIOM/"@ + e@.message_type + "/"@ + e@.request_id
                && !e@.message_type.contains('/')
            &&& e@.message_id == m.message_id
            &&& e@.uncle_correlate == correlate_of(m.correlate)
            &&& body_text(m) matches Ok(t) && payload_in(e@.message_type, t, envelope, opened) == Ok::<
                PayloadView,
                DecodeView,
            >(e@.payload)
        },
{
    let m = mail_parts(raw);
    law_what_makes_a_letter(m);
}

/// Who only asks for the mail is told that it could not be opened; other errors stay as they
/// are.
pub proof fn law_unopened_mail_is_an_error(e: ErrorView)
    ensures
        plain_error(DecodeView::DecryptFailed) == ErrorView::EmailParseError("envelope decryption failed"@),
        plain_error(DecodeView::Other(e)) == e,
{
}

/// What is wrong with a subject is said with the subject, and with what it should look like.
pub proof fn law_wrong_subjects_are_shown(subject: Seq<char>)
    ensures
        subject_error(subject) == ErrorView::EmailParseError(
            "Invalid subject format: "@ + subject + ". Expected: AXIOM/<type>/<request_id>"@,
        ),
        CORRELATE_HEADER@ == "X-UNCLE-Correlate"@,
{
}

/// A request that the reader finds no fault with is read as its bytes say.
pub proof fn law_requests_are_read_from_their_bytes(b: Seq<u8>)
    ensures
        cbor_fault(b) matches Some(e) ==> request_of(b) == Err::<PayloadView, ErrorView>(
            ErrorView::EmailParseError("CBOR decode failed: "@ + e),
        ),
        cbor_fault(b) is None ==> (cbor::item_at(b, 0, 0) matches Err(e) ==> request_of(b) == Err::<
            PayloadView,
            ErrorView,
        >(ErrorView::EmailParseError("CBOR→JSON failed: "@ + e))),
        cbor_fault(b) is None && cbor::item_at(b, 0, 0) is Ok ==> request_of(b) == payload::payload_of(
            cbor::item_at(b, 0, 0)->Ok_0.0,
            b,
        ),
{
}


/// A mail is its header lines, an empty line and its body in base 64, each line ended; a notice
/// is one with an identifier of its own that answers nothing.
pub proof fn law_mail_carries_its_body(
    bytes: Seq<u8>,
    from: Seq<char>,
    to: Seq<char>,
    kind: Seq<char>,
    id: Seq<char>,
    reply: Option<Seq<char>>,
    body: Seq<u8>,
)
    requires
        is_mail(bytes, from, to, kind, id, reply, body),
    ensures
        exists|stamp: Stamp|
            is_stamp(stamp) && bytes == encode_utf8(
                ended(
                    #[trigger] headers(from, to, kind, id, stamp, reply) + seq![
                        Seq::<char>::empty(),
                        base64_text(body),
                    ],
                ),
            ),
        reply is None && is_uuid(id) ==> is_notice(bytes, from, to, kind, body),
{
    let stamp = choose|stamp: Stamp|
        is_stamp(stamp) && bytes == encode_utf8(
            mail(#[trigger] headers(from, to, kind, id, stamp, reply), base64_text(body)),
        );
    law_mail_is_its_lines(headers(from, to, kind, id, stamp, reply), Seq::empty(), base64_text(body));
}

/// Who asks for a mail gets the one that was parsed, or the error.
pub proof fn law_flattening_keeps_mails_and_errors(
    r: Result<AntieEmail, AntieError>,
    o: Result<ParseOutcome, AntieError>,
)
    requires
        flattened(r, o),
    ensures
        r is Ok <==> o is Ok && o->Ok_0 is Parsed,
        r is Ok ==> r->Ok_0 == *(o->Ok_0->Parsed_0),
        o is Err ==> r->Err_0 == o->Err_0,
        o is Ok && o->Ok_0 is DecryptFailed ==> r->Err_0@ == plain_error(DecodeView::DecryptFailed),
{
}


/// A mail that is no letter is answered with what is wrong with it; a letter that cannot be
/// opened is told apart, and what is wrong inside a letter is an error.
pub proof fn law_what_becomes_of_other_mails(
    r: Result<ParseOutcome, AntieError>,
    raw: Seq<u8>,
    envelope: Option<EnvelopeView>,
    opened: Option<Seq<u8>>,
)
    requires
        mail_outcome(r, raw, envelope, opened),
    ensures
        letter_error(mail_parts(raw)) matches Some(e) ==> r is Err && r->Err_0@ == e,
        r is Ok ==> letter_error(mail_parts(raw)) is None,
        letter_error(mail_parts(raw)) is None ==> exists|l: LetterView|
            {
                &&& #[trigger] is_letter(l, mail_parts(raw)->0, raw)
                &&& r is Ok && r->Ok_0 is DecryptFailed <==> payload_inside(l.message_type, l.body, envelope, opened)
                    == Err::<PayloadView, DecodeView>(DecodeView::DecryptFailed)
                &&& r is Ok && r->Ok_0 is Parsed <==> payload_inside(l.message_type, l.body, envelope, opened) is Ok
                &&& r is Err ==> payload_inside(l.message_type, l.body, envelope, opened) == Err::<
                    PayloadView,
                    DecodeView,
                >(DecodeView::Other(r->Err_0@))
            },
{
    if letter_error(mail_parts(raw)) is None {
        let l = choose|l: LetterView| #[trigger]
            is_letter(l, mail_parts(raw)->0, raw) && outcome_of(r, l, envelope, opened);
        assert(is_letter(l, mail_parts(raw)->0, raw));
    }
}

/// What is said of a body in the wrong form: which kind it is, and for a body without the
/// envelope its length and its first bytes.
pub proof fn law_wrong_forms_are_named(
    kind: Seq<char>,
    bytes: Seq<u8>,
    envelope: EnvelopeView,
    opened: Option<Seq<u8>>,
)
    ensures
        in_envelope(kind) ==> unwrapped(kind, bytes, None, opened) == Err::<Seq<u8>, DecodeView>(
            DecodeView::Other(
                ErrorView::EmailParseError(
                    "wire format violation: message type "@ + text::str_debug_text(kind)
                        + " requires UmpEnvelope, body parses as raw CBOR ("@ + text::dec(bytes.len())
                        + " bytes, hex prefix "@ + text::hex_text(first_bytes(bytes)) + ")"@,
                ),
            ),
        ),
        !in_envelope(kind) ==> unwrapped(kind, bytes, Some(envelope), opened) == Err::<Seq<u8>, DecodeView>(
            DecodeView::Other(
                ErrorView::EmailParseError(
                    "wire format violation: message type "@ + text::str_debug_text(kind)
                        + " ships raw CBOR but body parses as UmpEnvelope"@,
                ),
            ),
        ),
{
}

/// What a mail carries reads back as it was, with the line end behind it or without.
pub proof fn law_carried_bytes_read_back(body: Seq<u8>)
    requires
        reads_back(body),
        body.len() > 0,
    ensures
        body_bytes(base64_text(body) + "\r\n"@) == Ok::<Seq<u8>, ErrorView>(body),
        body_bytes(base64_text(body)) == Ok::<Seq<u8>, ErrorView>(body),
{
    law_line_ends_change_no_bytes(base64_text(body), Seq::empty(), Seq::empty());
    assert(base64_text(body) + "\r\n"@ + Seq::<char>::empty() =~= base64_text(body) + "\r\n"@);
    assert(base64_text(body) + Seq::<char>::empty() =~= base64_text(body));
}

} // verus!
