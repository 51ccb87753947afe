//! Mail carriers: where mail is taken from and where it goes.
//!
//! Mail comes in from a mail directory, by POP3 or by IMAP, and goes out into a
//! mail directory or by SMTP. What is said on the wire and what is made of the
//! answers is decided here; the conversations themselves are held elsewhere.
use vstd::prelude::*;
use vstd::utf8::*;
use crate::antie::error::{labelled, AntieError, ErrorView};
use crate::antie::cbor::push_bytes;
use crate::antie::maildir::Maildir;
use crate::text;

verus! {

/// A mail that came in.
pub struct IncomingMessage {
    /// Its id within its carrier.
    pub id: String,
    /// Its bytes.
    pub raw: Vec<u8>,
    /// Where it came from.
    pub source: String,
}

/// What a carrier does with a mail that could not be processed.
#[derive(Debug, Clone, Copy, PartialEq, Eq, Structural)]
pub enum FailureAction {
    /// It is put away like any other.
    MarkProcessed,
    /// It is left where it is.
    LeaveAlone,
}

/// What all carriers have in common.
pub trait MailCarrier {
    /// The carrier's name.
    spec fn called(&self) -> Seq<char>;

    /// Why the carrier cannot send, if it cannot.
    spec fn refusal(&self) -> Option<Seq<char>>;

    /// What the carrier does with a mail that could not be processed.
    spec fn upon_failure(&self) -> FailureAction;

    /// The carrier's name.
    fn name(&self) -> (r: &str)
        ensures
            r@ == self.called(),
    ;

    /// Whether the carrier can send.
    fn can_send(&self) -> (r: Result<(), AntieError>)
        ensures
            match self.refusal() {
                None => r is Ok,
                Some(why) => r matches Err(e) && e@ == ErrorView::ConfigError(why),
            },
    ;

    /// What the carrier does with a mail that could not be processed.
    fn on_failure(&self) -> (r: FailureAction)
        ensures
            r == self.upon_failure(),
    ;
}

// ---------------------------------------------------------------------------
// Configuration
// ---------------------------------------------------------------------------

/// A mail directory to take mail from and one to put mail into.
pub struct MaildirConfig {
    pub inbox: String,
    pub outbox: String,
}

/// An IMAP mailbox.
pub struct ImapConfig {
    pub server: String,
    pub port: u16,
    pub username: String,
    pub password: String,
    pub use_tls: bool,
    pub inbox_folder: String,
    pub processed_folder: String,
}

/// Connections are secured unless the configuration says otherwise.
pub fn default_true() -> (r: bool)
    ensures
        r,
{
    true
}

/// The folder that mail comes into, unless the configuration says otherwise.
pub fn default_inbox() -> (r: String)
    ensures
        r@ == "INBOX"@,
{
    String::from_str("INBOX")
}

/// The folder that mail is put away into, unless the configuration says
/// otherwise.
pub fn default_processed() -> (r: String)
    ensures
        r@ == "INBOX.Processed"@,
{
    String::from_str("INBOX.Processed")
}

/// A POP3 mailbox.
pub struct Pop3Config {
    pub server: String,
    pub port: u16,
    pub username: String,
    pub password: String,
    pub use_tls: bool,
}

/// The carriers that mail comes in by, and the addresses of others that are
/// only made known.
pub struct CarriersConfig {
    pub maildir: Option<MaildirConfig>,
    pub imap: Option<ImapConfig>,
    pub pop3: Option<Pop3Config>,
    pub advertise: Vec<String>,
}

impl Default for CarriersConfig {
    fn default() -> (r: Self)
        ensures
            r.maildir is None,
            r.imap is None,
            r.pop3 is None,
            r.advertise@.len() == 0,
    {
        CarriersConfig { maildir: None, imap: None, pop3: None, advertise: Vec::new() }
    }
}

impl CarriersConfig {
    /// Whether mail can come in.
    pub open spec fn takes_mail(self) -> bool {
        self.maildir is Some || self.imap is Some || self.pop3 is Some
    }

    /// The addresses that are made known: that of the mailbox, however mail
    /// comes into it, then the others as they are given.
    pub open spec fn uris(self, identity_email: Seq<char>) -> Seq<Seq<char>> {
        if self.takes_mail() {
            seq!["email:"@ + identity_email] + text::views(self.advertise@)
        } else {
            text::views(self.advertise@)
        }
    }

    /// The names of the carriers that mail comes in by.
    pub open spec fn names(self) -> Seq<Seq<char>> {
        (if self.maildir is Some {
            seq!["maildir"@]
        } else {
            Seq::empty()
        }) + (if self.imap is Some {
            seq!["imap"@]
        } else {
            Seq::empty()
        }) + (if self.pop3 is Some {
            seq!["pop3"@]
        } else {
            Seq::empty()
        })
    }

    /// Checks that mail can come in.
    pub fn validate(&self) -> (r: Result<(), AntieError>)
        ensures
            r is Ok <==> self.takes_mail(),
            r matches Err(e) ==> e@ == ErrorView::ConfigError(
                "at least one email carrier (maildir, imap, or pop3) must be configured — tcp alone is not valid; email is required for fan-out"@,
            ),
    {
        if !self.any_enabled() {
            return Err(
                AntieError::ConfigError(
                    String::from_str(
                        "at least one email carrier (maildir, imap, or pop3) must be configured — tcp alone is not valid; email is required for fan-out",
                    ),
                ),
            );
        }
        Ok(())
    }

    /// Whether any carrier is configured.
    pub fn any_enabled(&self) -> (r: bool)
        ensures
            r == self.takes_mail(),
    {
        self.maildir.is_some() || self.imap.is_some() || self.pop3.is_some()
    }

    /// The addresses that are made known.
    pub fn to_uri_list(&self, identity_email: &str) -> (r: Vec<String>)
        ensures
            text::views(r@) == self.uris(identity_email@),
    {
        let mut uris: Vec<String> = Vec::new();
        if self.any_enabled() {
            uris.push(labelled("email:", identity_email));
        }
        let ghost first = text::views(uris@);
        let ghost rest = text::views(self.advertise@);
        assert(rest.take(0) == Seq::<Seq<char>>::empty());
        let mut i: usize = 0;
        while i < self.advertise.len()
            invariant
                i <= self.advertise@.len(),
                rest == text::views(self.advertise@),
                text::views(uris@) == first + rest.take(i as int),
            decreases self.advertise@.len() - i,
        {
            let ghost before = text::views(uris@);
            uris.push(self.advertise[i].clone());
            i = i + 1;
            proof {
                assert(text::views(uris@) == before.push(rest[i - 1]));
                assert(rest.take(i as int) == rest.take(i - 1).push(rest[i - 1]));
            }
        }
        proof {
            assert(rest.take(i as int) == rest);
            assert(text::views(uris@) == self.uris(identity_email@));
        }
        uris
    }

    /// The names of the carriers that mail comes in by, separated by commas.
    pub fn active_names(&self) -> (r: String)
        ensures
            r@ == text::join(self.names(), ","@),
    {
        let mut names: Vec<String> = Vec::new();
        if self.maildir.is_some() {
            names.push(String::from_str("maildir"));
        }
        if self.imap.is_some() {
            names.push(String::from_str("imap"));
        }
        if self.pop3.is_some() {
            names.push(String::from_str("pop3"));
        }
        assert(text::views(names@) == self.names());
        text::join_with(&names, ",")
    }
}

/// However many ways mail comes in by, the mailbox is made known once, before
/// all else, and the other addresses follow unchanged.
pub proof fn law_mailbox_is_advertised_once(c: CarriersConfig, email: Seq<char>)
    requires
        c.takes_mail(),
    ensures
        c.uris(email).len() == c.advertise@.len() + 1,
        c.uris(email)[0] == "email:"@ + email,
        forall|i: int|
            0 <= i < c.advertise@.len() ==> #[trigger] c.uris(email)[i + 1] == c.advertise@[i]@,
{
    assert forall|i: int| 0 <= i < c.advertise@.len() implies #[trigger] c.uris(email)[i + 1]
        == c.advertise@[i]@ by {
        assert(c.uris(email)[i + 1] == text::views(c.advertise@)[i]);
    }
}

// ---------------------------------------------------------------------------
// Mail directories
// ---------------------------------------------------------------------------

/// A carrier by mail directories.
pub struct MaildirCarrier {
    pub inbox: Maildir,
    pub outbox: Maildir,
}

impl MaildirCarrier {
    /// A carrier by the given directories.
    pub fn new(inbox_path: &str, outbox_path: &str) -> (r: Self)
        ensures
            r.inbox.at() == inbox_path@,
            r.outbox.at() == outbox_path@,
    {
        MaildirCarrier {
            inbox: Maildir::open(inbox_path),
            outbox: Maildir::open(outbox_path),
        }
    }
}

impl MailCarrier for MaildirCarrier {
    open spec fn called(&self) -> Seq<char> {
        "maildir"@
    }

    open spec fn refusal(&self) -> Option<Seq<char>> {
        None
    }

    open spec fn upon_failure(&self) -> FailureAction {
        FailureAction::MarkProcessed
    }

    fn name(&self) -> (r: &str) {
        "maildir"
    }

    fn can_send(&self) -> (r: Result<(), AntieError>) {
        Ok(())
    }

    fn on_failure(&self) -> (r: FailureAction) {
        FailureAction::MarkProcessed
    }
}

// ---------------------------------------------------------------------------
// Scripts
// ---------------------------------------------------------------------------

/// A command of a conversation, and whether the conversation fails with it.
pub struct ScriptLine {
    pub command: String,
    pub required: bool,
}

/// The mathematical value of a script.
pub open spec fn script(s: Seq<ScriptLine>) -> Seq<(Seq<char>, bool)> {
    Seq::new(s.len(), |i: int| (s[i].command@, s[i].required))
}

fn required(command: String) -> (r: ScriptLine)
    ensures
        r.command@ == command@,
        r.required,
{
    ScriptLine { command, required: true }
}

fn optional(command: String) -> (r: ScriptLine)
    ensures
        r.command@ == command@,
        !r.required,
{
    ScriptLine { command, required: false }
}

/// The bytes of a command line.
pub fn command_bytes(command: &str) -> (r: Vec<u8>)
    ensures
        r@ == encode_utf8(command@ + "\r\n"@),
{
    let line = labelled(command, "\r\n");
    vstd::slice::slice_to_vec(line.as_str().as_bytes())
}

// ---------------------------------------------------------------------------
// POP3
// ---------------------------------------------------------------------------

/// A carrier by POP3, which only takes mail in.
pub struct Pop3Carrier {
    pub server: String,
    pub port: u16,
    pub username: String,
    pub password: String,
    pub use_tls: bool,
}

/// What a POP3 server's answer to a command means.
pub open spec fn pop3_verdict(line: Seq<char>) -> Option<ErrorView> {
    if text::starts_with(line, "-ERR"@) {
        Some(ErrorView::ConfigError("POP3: "@ + text::trim(line)))
    } else {
        None
    }
}

/// Checks a POP3 server's answer to a command.
pub fn pop3_reply(line: &str) -> (r: Result<(), AntieError>)
    ensures
        match pop3_verdict(line@) {
            None => r is Ok,
            Some(e) => r matches Err(got) && got@ == e,
        },
{
    if text::has_prefix(line, "-ERR") {
        let t = text::trimmed(line);
        return Err(AntieError::ConfigError(labelled("POP3: ", t.as_str())));
    }
    Ok(())
}

/// How many mails a POP3 server has, by its answer to `STAT`: its second word.
pub open spec fn stat_count(line: Seq<char>) -> nat {
    let w = text::words(line);
    if w.len() > 1 {
        match text::numeral(w[1], usize::MAX as nat) {
            Some(n) => n,
            None => 0,
        }
    } else {
        0
    }
}

/// How many mails a POP3 server has, by its answer to `STAT`.
pub fn pop3_count(line: &str) -> (r: usize)
    ensures
        r == stat_count(line@),
{
    let w = text::words_of(line);
    if w.len() > 1 {
        assert(w@[1]@ == text::views(w@)[1]);
        let v = text::chars_of(w[1].as_str());
        assert(v@.subrange(0, v@.len() as int) == v@);
        match text::read_numeral(&v, 0, v.len(), usize::MAX as u64) {
            Some(n) => n as usize,
            None => 0,
        }
    } else {
        0
    }
}

/// A line of a body as it was before its leading dot was doubled.
pub open spec fn unstuffed(line: Seq<char>) -> Seq<char> {
    if text::starts_with(line, ".."@) {
        line.drop_first()
    } else {
        line
    }
}

/// A line of a body as a server sends it: a leading dot is doubled.
pub open spec fn stuffed(line: Seq<char>) -> Seq<char> {
    if line.len() > 0 && line[0] == '.' {
        seq!['.'] + line
    } else {
        line
    }
}

/// Whatever a line holds, it is read as it was before the server sent it.
pub proof fn law_lines_read_as_sent(line: Seq<char>)
    ensures
        unstuffed(stuffed(line)) == line,
{
    reveal_strlit("..");
    let s = stuffed(line);
    if line.len() > 0 && line[0] == '.' {
        assert(s.take(2) == ".."@);
        assert(s.drop_first() == line);
    } else if line.len() >= 2 {
        assert(line.take(2)[0] == line[0]);
        assert(".."@[0] == '.');
    }
}

/// Whether a line ends a body: nothing but a dot.
pub open spec fn ends_body(line: Seq<char>) -> bool {
    text::trim(line) == "."@
}

/// Takes the next line of a body that comes line by line. `true` if it was the
/// last, which is not part of the body.
pub fn pop3_body_line(data: &mut Vec<u8>, line: &str) -> (r: bool)
    ensures
        r == ends_body(line@),
        final(data)@ == (if r {
            old(data)@
        } else {
            old(data)@ + encode_utf8(unstuffed(line@))
        }),
{
    if text::same_text(text::trimmed(line).as_str(), ".") {
        return true;
    }
    if text::has_prefix(line, "..") {
        let v = text::chars_of(line);
        proof {
            reveal_strlit("..");
        }
        let rest = text::string_of(&v, 1, v.len());
        assert(rest@ == line@.drop_first());
        push_bytes(data, rest.as_str().as_bytes());
    } else {
        push_bytes(data, line.as_bytes());
    }
    false
}

impl Pop3Carrier {
    /// A carrier by the given mailbox.
    pub fn new(server: String, port: u16, username: String, password: String, use_tls: bool) -> (r:
        Self)
        ensures
            r == (Pop3Carrier { server, port, username, password, use_tls }),
    {
        Pop3Carrier { server, port, username, password, use_tls }
    }

    /// What is said to be let in, and to learn how many mails there are.
    pub fn opening(&self) -> (r: Vec<ScriptLine>)
        ensures
            script(r@) == seq![
                ("USER "@ + self.username@, true),
                ("PASS "@ + self.password@, true),
                ("STAT"@, true),
            ],
    {
        let mut out: Vec<ScriptLine> = Vec::new();
        out.push(required(labelled("USER ", self.username.as_str())));
        out.push(required(labelled("PASS ", self.password.as_str())));
        out.push(required(String::from_str("STAT")));
        assert(script(out@) == seq![
            ("USER "@ + self.username@, true),
            ("PASS "@ + self.password@, true),
            ("STAT"@, true),
        ]);
        out
    }

    /// What is said to get the mail with a number.
    pub fn retrieve(&self, i: usize) -> (r: String)
        ensures
            r@ == "RETR "@ + text::dec(i as nat),
    {
        let mut out = String::from_str("RETR ");
        text::push_dec(&mut out, i as u64);
        out
    }

    /// The mail with a number.
    pub fn message(&self, i: usize, raw: Vec<u8>) -> (r: IncomingMessage)
        ensures
            r.id@ == text::dec(i as nat),
            r.raw == raw,
            r.source@ == "pop3://"@ + self.server@ + ":"@ + text::dec(self.port as nat) + "/"@
                + text::dec(i as nat),
    {
        let mut source = String::from_str("pop3://");
        source.append(self.server.as_str());
        source.append(":");
        text::push_dec(&mut source, self.port as u64);
        source.append("/");
        text::push_dec(&mut source, i as u64);
        IncomingMessage { id: text::dec_string(i as u64), raw, source }
    }

    /// What is said, from being let in on, to put a mail away: on a POP3 server
    /// that is to delete it.
    pub fn putting_away(&self, message_id: &str) -> (r: Vec<ScriptLine>)
        ensures
            script(r@) == seq![
                ("USER "@ + self.username@, true),
                ("PASS "@ + self.password@, true),
                ("DELE "@ + message_id@, true),
                ("QUIT"@, false),
            ],
    {
        let mut out: Vec<ScriptLine> = Vec::new();
        out.push(required(labelled("USER ", self.username.as_str())));
        out.push(required(labelled("PASS ", self.password.as_str())));
        out.push(required(labelled("DELE ", message_id)));
        out.push(optional(String::from_str("QUIT")));
        assert(script(out@) == seq![
            ("USER "@ + self.username@, true),
            ("PASS "@ + self.password@, true),
            ("DELE "@ + message_id@, true),
            ("QUIT"@, false),
        ]);
        out
    }
}

impl MailCarrier for Pop3Carrier {
    open spec fn called(&self) -> Seq<char> {
        "pop3"@
    }

    open spec fn refusal(&self) -> Option<Seq<char>> {
        Some("POP3 cannot send — use SMTP for outbound"@)
    }

    open spec fn upon_failure(&self) -> FailureAction {
        FailureAction::LeaveAlone
    }

    fn name(&self) -> (r: &str) {
        "pop3"
    }

    fn can_send(&self) -> (r: Result<(), AntieError>) {
        Err(AntieError::ConfigError(String::from_str("POP3 cannot send — use SMTP for outbound")))
    }

    fn on_failure(&self) -> (r: FailureAction) {
        FailureAction::LeaveAlone
    }
}

// ---------------------------------------------------------------------------
// IMAP
// ---------------------------------------------------------------------------

/// A carrier by IMAP, which only takes mail in.
pub struct ImapCarrier {
    pub server: String,
    pub port: u16,
    pub username: String,
    pub password: String,
    pub use_tls: bool,
    pub inbox_folder: String,
    pub processed_folder: String,
    /// The number of the next command.
    pub tag_counter: u32,
}

/// A numeral with zeros before it, at least four digits in all.
pub open spec fn four_digits(n: nat) -> Seq<char> {
    if n < 10 {
        "000"@ + text::dec(n)
    } else if n < 100 {
        "00"@ + text::dec(n)
    } else if n < 1000 {
        "0"@ + text::dec(n)
    } else {
        text::dec(n)
    }
}

/// The tag of the command with a number.
pub open spec fn tag_of(n: u32) -> Seq<char> {
    "A"@ + four_digits(n as nat)
}

proof fn lemma_four_digits(n: nat)
    ensures
        text::digits_value(four_digits(n)) == n,
{
    reveal_strlit("000");
    reveal_strlit("00");
    reveal_strlit("0");
    text::lemma_dec_value(n);
    text::lemma_leading_zeros("000"@, text::dec(n));
    text::lemma_leading_zeros("00"@, text::dec(n));
    text::lemma_leading_zeros("0"@, text::dec(n));
}

/// Different commands have different tags.
pub proof fn law_tags_differ(m: u32, n: u32)
    requires
        tag_of(m) == tag_of(n),
    ensures
        m == n,
{
    reveal_strlit("A");
    assert(tag_of(m).skip(1) == four_digits(m as nat));
    assert(tag_of(n).skip(1) == four_digits(n as nat));
    lemma_four_digits(m as nat);
    lemma_four_digits(n as nat);
}

/// What an IMAP server's line means for the command with a tag: the last line
/// bears the tag, and says if the command failed.
pub open spec fn imap_verdict(tag: Seq<char>, line: Seq<char>) -> Result<bool, ErrorView> {
    let t = text::trim(line);
    if text::starts_with(t, tag) {
        if text::holds(t, "NO"@) || text::holds(t, "BAD"@) {
            Err(ErrorView::ConfigError("IMAP: "@ + t))
        } else {
            Ok(true)
        }
    } else {
        Ok(false)
    }
}

/// Takes the next line of an IMAP server's answer. `true` if it was the last.
pub fn imap_line(tag: &str, line: &str, lines: &mut Vec<String>) -> (r: Result<bool, AntieError>)
    ensures
        match imap_verdict(tag@, line@) {
            Err(e) => r matches Err(got) && got@ == e && *final(lines) == *old(lines),
            Ok(done) => r matches Ok(got) && got == done && text::views(final(lines)@) == text::views(
                old(lines)@,
            ).push(text::trim(line@)),
        },
{
    let t = text::trimmed(line);
    let last = text::has_prefix(t.as_str(), tag);
    if last && (text::has_text(t.as_str(), "NO") || text::has_text(t.as_str(), "BAD")) {
        return Err(AntieError::ConfigError(labelled("IMAP: ", t.as_str())));
    }
    let ghost tv = t@;
    lines.push(t);
    assert(text::views(lines@) == text::views(old(lines)@).push(tv));
    Ok(last)
}

/// Checks an IMAP server's greeting.
pub fn imap_greeting(line: &str) -> (r: Result<(), AntieError>)
    ensures
        r is Ok <==> text::holds(line@, "OK"@),
        r matches Err(e) ==> e@ == ErrorView::ConfigError("IMAP bad greeting: "@ + text::trim(line@)),
{
    if !text::has_text(line, "OK") {
        let t = text::trimmed(line);
        return Err(AntieError::ConfigError(labelled("IMAP bad greeting: ", t.as_str())));
    }
    Ok(())
}

/// The ids in a line of an answer to a search: all words but the first two, if
/// it is the line with the result.
pub open spec fn ids_in(line: Seq<char>) -> Seq<Seq<char>> {
    if text::starts_with(line, "* SEARCH"@) && text::words(line).len() > 2 {
        text::words(line).skip(2)
    } else {
        Seq::empty()
    }
}

/// The ids in an answer to a search.
pub open spec fn ids_found(lines: Seq<Seq<char>>) -> Seq<Seq<char>>
    decreases lines.len(),
{
    if lines.len() == 0 {
        Seq::empty()
    } else {
        ids_found(lines.drop_last()) + ids_in(lines.last())
    }
}

/// The ids in an answer to a search.
pub fn search_uids(lines: &Vec<String>) -> (r: Vec<String>)
    ensures
        text::views(r@) == ids_found(text::views(lines@)),
{
    let ghost all = text::views(lines@);
    let mut out: Vec<String> = Vec::new();
    let mut i: usize = 0;
    assert(text::views(out@) == ids_found(all.take(0)));
    while i < lines.len()
        invariant
            i <= lines@.len(),
            all == text::views(lines@),
            text::views(out@) == ids_found(all.take(i as int)),
        decreases lines@.len() - i,
    {
        proof {
            assert(all.take(i + 1).drop_last() == all.take(i as int));
            assert(all.take(i + 1).last() == lines@[i as int]@);
        }
        let ghost before = text::views(out@);
        let ghost here = ids_in(lines@[i as int]@);
        if text::has_prefix(lines[i].as_str(), "* SEARCH") {
            let w = text::words_of(lines[i].as_str());
            let ghost ws = text::views(w@);
            let mut k: usize = 2;
            assert(here.take(0) == Seq::<Seq<char>>::empty());
            while k < w.len()
                invariant
                    2 <= k,
                    k <= w@.len() || w@.len() < 2,
                    ws == text::views(w@),
                    w@.len() > 2 ==> here == ws.skip(2),
                    w@.len() > 2 ==> text::views(out@) == before + here.take(k - 2),
                    w@.len() <= 2 ==> text::views(out@) == before,
                decreases w@.len() - k,
            {
                let ghost prev = text::views(out@);
                out.push(w[k].clone());
                k = k + 1;
                proof {
                    assert(here[k - 3] == ws[k - 1]);
                    assert(text::views(out@) == prev.push(here[k - 3]));
                    assert(here.take(k - 2) == here.take(k - 3).push(here[k - 3]));
                }
            }
            proof {
                if w@.len() > 2 {
                    assert(here.take(k - 2) == here);
                } else {
                    assert(here == Seq::<Seq<char>>::empty());
                }
            }
        }
        assert(text::views(out@) == before + here);
        i = i + 1;
    }
    assert(all.take(i as int) == all);
    out
}

/// The size that a line announces for what follows it: a number in the last
/// pair of braces.
pub open spec fn literal_size(line: Seq<char>) -> Option<nat> {
    match (text::last_index(line, '{'), text::last_index(line, '}')) {
        (Some(a), Some(b)) => if a < b {
            text::numeral(line.subrange(a + 1, b), usize::MAX as nat)
        } else {
            None
        },
        _ => None,
    }
}

/// The size that a line announces for what follows it.
fn read_literal_size(line: &str) -> (r: Option<usize>)
    ensures
        match literal_size(line@) {
            Some(n) => r == Some(n as usize) && n <= usize::MAX,
            None => r is None,
        },
{
    let v = text::chars_of(line);
    match (text::find_last(&v, '{'), text::find_last(&v, '}')) {
        (Some(a), Some(b)) => {
            if a < b {
                match text::read_numeral(&v, a + 1, b, usize::MAX as u64) {
                    Some(n) => Some(n as usize),
                    None => None,
                }
            } else {
                None
            }
        },
        _ => None,
    }
}

/// The reading of a mail that comes line by line.
pub struct Fetch {
    /// What has come of the mail.
    pub data: Vec<u8>,
    /// How many bytes are still to come.
    pub remaining: usize,
    /// Whether lines belong to the mail.
    pub in_literal: bool,
}

/// What a line adds to the reading of a mail: the reading after it, and
/// whether it was the last line.
pub open spec fn fetched(
    data: Seq<u8>,
    remaining: nat,
    in_literal: bool,
    tag: Seq<char>,
    line: Seq<char>,
) -> ((Seq<u8>, nat, bool), bool) {
    if in_literal {
        let bytes = encode_utf8(line);
        let take = if bytes.len() < remaining {
            bytes.len()
        } else {
            remaining
        };
        ((data + bytes.take(take as int), (remaining - take) as nat, remaining != take), false)
    } else if text::starts_with(text::trim(line), tag) {
        ((data, remaining, false), true)
    } else {
        match literal_size(text::trim(line)) {
            Some(n) => ((data, n, true), false),
            None => ((data, remaining, false), false),
        }
    }
}

/// Within a mail a line adds as many bytes as it takes from those still to come, so that a mail
/// that has come whole has the size that was announced.
pub proof fn law_mail_has_the_announced_size(
    data: Seq<u8>,
    remaining: nat,
    tag: Seq<char>,
    line: Seq<char>,
)
    ensures
        ({
            let (after, last) = fetched(data, remaining, true, tag, line);
            &&& !last
            &&& after.0.len() + after.1 == data.len() + remaining
            &&& after.2 <==> after.1 > 0
            &&& after.0.take(data.len() as int) == data
        }),
{
    let after = fetched(data, remaining, true, tag, line).0;
    assert(after.0.take(data.len() as int) == data);
}

impl Fetch {
    /// A reading of which nothing has come yet.
    pub fn new() -> (r: Self)
        ensures
            r.data@ == Seq::<u8>::empty(),
            r.remaining == 0,
            !r.in_literal,
    {
        Fetch { data: Vec::new(), remaining: 0, in_literal: false }
    }

    /// Takes the next line. `true` if it was the last.
    pub fn line(&mut self, tag: &str, line: &str) -> (r: bool)
        ensures
            ((final(self).data@, final(self).remaining as nat, final(self).in_literal), r) == fetched(
                old(self).data@,
                old(self).remaining as nat,
                old(self).in_literal,
                tag@,
                line@,
            ),
    {
        if self.in_literal {
            let bytes = line.as_bytes();
            let take: usize = if bytes.len() < self.remaining {
                bytes.len()
            } else {
                self.remaining
            };
            let part = vstd::slice::slice_subrange(bytes, 0, take);
            assert(part@ == bytes@.take(take as int));
            push_bytes(&mut self.data, part);
            self.remaining = self.remaining - take;
            if self.remaining == 0 {
                self.in_literal = false;
            }
            return false;
        }
        let t = text::trimmed(line);
        if text::has_prefix(t.as_str(), tag) {
            return true;
        }
        match read_literal_size(t.as_str()) {
            Some(n) => {
                self.remaining = n;
                self.in_literal = true;
            },
            None => {},
        }
        false
    }
}

impl ImapCarrier {
    /// A carrier by the given mailbox.
    pub fn new(
        server: String,
        port: u16,
        username: String,
        password: String,
        use_tls: bool,
        inbox_folder: String,
        processed_folder: String,
    ) -> (r: Self)
        ensures
            r == (ImapCarrier {
                server,
                port,
                username,
                password,
                use_tls,
                inbox_folder,
                processed_folder,
                tag_counter: 1,
            }),
    {
        ImapCarrier {
            server,
            port,
            username,
            password,
            use_tls,
            inbox_folder,
            processed_folder,
            tag_counter: 1,
        }
    }

    /// A tag for the next command.
    pub fn next_tag(&mut self) -> (r: String)
        ensures
            r@ == tag_of(old(self).tag_counter),
            *final(self) == (ImapCarrier {
                tag_counter: ((old(self).tag_counter + 1) % 0x1_0000_0000) as u32,
                ..*old(self)
            }),
    {
        let n: u32 = self.tag_counter;
        self.tag_counter = n.wrapping_add(1);
        let mut out = String::from_str("A");
        if n < 10 {
            out.append("000");
        } else if n < 100 {
            out.append("00");
        } else if n < 1000 {
            out.append("0");
        }
        text::push_dec(&mut out, n as u64);
        assert(out@ == tag_of(n));
        out
    }

    /// A command with its tag.
    pub fn tagged(&self, tag: &str, command: &str) -> (r: String)
        ensures
            r@ == tag@ + " "@ + command@,
    {
        let mut out = labelled(tag, " ");
        out.append(command);
        out
    }

    fn login(&self) -> (r: String)
        ensures
            r@ == "LOGIN "@ + self.username@ + " "@ + self.password@,
    {
        let mut out = labelled("LOGIN ", self.username.as_str());
        out.append(" ");
        out.append(self.password.as_str());
        out
    }

    /// What is said to be let in, and to learn which mails are new.
    pub fn opening(&self) -> (r: Vec<ScriptLine>)
        ensures
            script(r@) == seq![
                ("LOGIN "@ + self.username@ + " "@ + self.password@, true),
                ("SELECT "@ + self.inbox_folder@, true),
                ("UID SEARCH UNSEEN"@, true),
            ],
    {
        let mut out: Vec<ScriptLine> = Vec::new();
        out.push(required(self.login()));
        out.push(required(labelled("SELECT ", self.inbox_folder.as_str())));
        out.push(required(String::from_str("UID SEARCH UNSEEN")));
        assert(script(out@) == seq![
            ("LOGIN "@ + self.username@ + " "@ + self.password@, true),
            ("SELECT "@ + self.inbox_folder@, true),
            ("UID SEARCH UNSEEN"@, true),
        ]);
        out
    }

    /// What is said to get the mail with an id.
    pub fn fetch_command(&self, uid: &str) -> (r: String)
        ensures
            r@ == "UID FETCH "@ + uid@ + " BODY[]"@,
    {
        let mut out = labelled("UID FETCH ", uid);
        out.append(" BODY[]");
        out
    }

    /// The mail with an id.
    pub fn message(&self, uid: &str, raw: Vec<u8>) -> (r: IncomingMessage)
        ensures
            r.id@ == uid@,
            r.raw == raw,
            r.source@ == "imap://"@ + self.server@ + ":"@ + text::dec(self.port as nat) + "/"@
                + self.inbox_folder@ + "/"@ + uid@,
    {
        let mut source = labelled("imap://", self.server.as_str());
        source.append(":");
        text::push_dec(&mut source, self.port as u64);
        source.append("/");
        source.append(self.inbox_folder.as_str());
        source.append("/");
        source.append(uid);
        IncomingMessage { id: String::from_str(uid), raw, source }
    }

    /// What is said, from being let in on, to put a mail away: it is marked as
    /// seen, copied to its folder, and removed from where it was.
    pub fn putting_away(&self, message_id: &str) -> (r: Vec<ScriptLine>)
        ensures
            script(r@) == seq![
                ("LOGIN "@ + self.username@ + " "@ + self.password@, true),
                ("SELECT "@ + self.inbox_folder@, true),
                ("UID STORE "@ + message_id@ + " +FLAGS (\\Seen)"@, true),
                ("UID COPY "@ + message_id@ + " "@ + self.processed_folder@, false),
                ("UID STORE "@ + message_id@ + " +FLAGS (\\Deleted)"@, true),
                ("EXPUNGE"@, true),
                ("LOGOUT"@, false),
            ],
    {
        let mut seen = labelled("UID STORE ", message_id);
        seen.append(" +FLAGS (\\Seen)");
        let mut copy = labelled("UID COPY ", message_id);
        copy.append(" ");
        copy.append(self.processed_folder.as_str());
        let mut deleted = labelled("UID STORE ", message_id);
        deleted.append(" +FLAGS (\\Deleted)");
        let mut out: Vec<ScriptLine> = Vec::new();
        out.push(required(self.login()));
        out.push(required(labelled("SELECT ", self.inbox_folder.as_str())));
        out.push(required(seen));
        out.push(optional(copy));
        out.push(required(deleted));
        out.push(required(String::from_str("EXPUNGE")));
        out.push(optional(String::from_str("LOGOUT")));
        assert(script(out@) == seq![
            ("LOGIN "@ + self.username@ + " "@ + self.password@, true),
            ("SELECT "@ + self.inbox_folder@, true),
            ("UID STORE "@ + message_id@ + " +FLAGS (\\Seen)"@, true),
            ("UID COPY "@ + message_id@ + " "@ + self.processed_folder@, false),
            ("UID STORE "@ + message_id@ + " +FLAGS (\\Deleted)"@, true),
            ("EXPUNGE"@, true),
            ("LOGOUT"@, false),
        ]);
        out
    }
}

impl MailCarrier for ImapCarrier {
    open spec fn called(&self) -> Seq<char> {
        "imap"@
    }

    open spec fn refusal(&self) -> Option<Seq<char>> {
        Some("IMAP send not supported — use SMTP for outbound"@)
    }

    open spec fn upon_failure(&self) -> FailureAction {
        FailureAction::LeaveAlone
    }

    fn name(&self) -> (r: &str) {
        "imap"
    }

    fn can_send(&self) -> (r: Result<(), AntieError>) {
        Err(
            AntieError::ConfigError(
                String::from_str("IMAP send not supported — use SMTP for outbound"),
            ),
        )
    }

    fn on_failure(&self) -> (r: FailureAction) {
        FailureAction::LeaveAlone
    }
}

// ---------------------------------------------------------------------------
// SMTP
// ---------------------------------------------------------------------------

/// A carrier by SMTP, which only sends.
pub struct SmtpCarrier {
    pub server: String,
    pub port: u16,
    pub from_address: String,
}

/// Checks an SMTP server's answer: it goes on where the first digit is two or
/// three.
pub fn smtp_reply(line: &str) -> (r: Result<(), AntieError>)
    ensures
        r is Ok <==> line@.len() > 0 && (line@[0] == '2' || line@[0] == '3'),
        r matches Err(e) ==> e@ == ErrorView::ConfigError("SMTP error: "@ + text::trim(line@)),
{
    let v = text::chars_of(line);
    if v.len() > 0 && (v[0] == '2' || v[0] == '3') {
        return Ok(());
    }
    let t = text::trimmed(line);
    Err(AntieError::ConfigError(labelled("SMTP error: ", t.as_str())))
}

/// What the parts of an SMTP conversation hold.
pub open spec fn parts_view(v: Seq<Vec<u8>>) -> Seq<Seq<u8>> {
    Seq::new(v.len(), |i: int| v[i]@)
}

/// The parts of an SMTP conversation that delivers a mail. An answer is waited
/// for before the first and after each.
pub open spec fn smtp_parts(server: Seq<char>, from: Seq<char>, to: Seq<char>, raw: Seq<u8>) -> Seq<
    Seq<u8>,
> {
    seq![
        encode_utf8("EHLO "@ + server + "\r\n"@),
        encode_utf8("MAIL FROM:<"@ + from + ">\r\n"@),
        encode_utf8("RCPT TO:<"@ + to + ">\r\n"@),
        encode_utf8("DATA\r\n"@),
        raw + encode_utf8("\r\n.\r\n"@),
    ]
}

fn bytes_of_text(s: &str) -> (r: Vec<u8>)
    ensures
        r@ == encode_utf8(s@),
{
    vstd::slice::slice_to_vec(s.as_bytes())
}

impl SmtpCarrier {
    /// A carrier by the given server. Credentials are not used.
    pub fn new(
        server: String,
        port: u16,
        _username: Option<String>,
        _password: Option<String>,
        _use_tls: bool,
        from_address: String,
    ) -> (r: Self)
        ensures
            r == (SmtpCarrier { server, port, from_address }),
    {
        SmtpCarrier { server, port, from_address }
    }

    /// Where the server is.
    pub fn address(&self) -> (r: String)
        ensures
            r@ == self.server@ + ":"@ + text::dec(self.port as nat),
    {
        let mut out = labelled(self.server.as_str(), ":");
        text::push_dec(&mut out, self.port as u64);
        out
    }

    /// The parts of a conversation that delivers a mail.
    pub fn conversation(&self, to: &str, raw_email: &[u8]) -> (r: Vec<Vec<u8>>)
        ensures
            parts_view(r@) == smtp_parts(self.server@, self.from_address@, to@, raw_email@),
    {
        let mut hello = labelled("EHLO ", self.server.as_str());
        hello.append("\r\n");
        let mut from = labelled("MAIL FROM:<", self.from_address.as_str());
        from.append(">\r\n");
        let mut rcpt = labelled("RCPT TO:<", to);
        rcpt.append(">\r\n");
        let mut body = vstd::slice::slice_to_vec(raw_email);
        push_bytes(&mut body, "\r\n.\r\n".as_bytes());
        let mut out: Vec<Vec<u8>> = Vec::new();
        out.push(bytes_of_text(hello.as_str()));
        out.push(bytes_of_text(from.as_str()));
        out.push(bytes_of_text(rcpt.as_str()));
        out.push(bytes_of_text("DATA\r\n"));
        out.push(body);
        assert(parts_view(out@) == smtp_parts(
            self.server@,
            self.from_address@,
            to@,
            raw_email@,
        ));
        out
    }
}

impl MailCarrier for SmtpCarrier {
    open spec fn called(&self) -> Seq<char> {
        "smtp"@
    }

    open spec fn refusal(&self) -> Option<Seq<char>> {
        None
    }

    open spec fn upon_failure(&self) -> FailureAction {
        FailureAction::LeaveAlone
    }

    fn name(&self) -> (r: &str) {
        "smtp"
    }

    fn can_send(&self) -> (r: Result<(), AntieError>) {
        Ok(())
    }

    fn on_failure(&self) -> (r: FailureAction) {
        FailureAction::LeaveAlone
    }
}


/// A carrier is named if it is in use, and only then: mail directories first, then IMAP, then
/// POP3.
pub proof fn law_carriers_in_use_are_named(c: CarriersConfig, email: Seq<char>)
    ensures
        c.names().contains("maildir"@) <==> c.maildir is Some,
        c.names().contains("imap"@) <==> c.imap is Some,
        c.names().contains("pop3"@) <==> c.pop3 is Some,
        forall|s: Seq<char>| #[trigger] c.names().contains(s) ==> s == "maildir"@ || s == "imap"@ || s == "pop3"@,
        c.maildir is Some ==> c.names()[0] == "maildir"@,
        c.pop3 is Some ==> c.names().last() == "pop3"@,
        c.names().len() <= 3,
        c.names().len() == 3 ==> c.maildir is Some && c.imap is Some && c.pop3 is Some,
        c.takes_mail() <==> c.names().len() > 0,
        !c.takes_mail() ==> c.uris(email) == text::views(c.advertise@),
{
    reveal_strlit("maildir");
    reveal_strlit("imap");
    reveal_strlit("pop3");
    assert("maildir"@.len() == 7 && "imap"@.len() == 4 && "pop3"@.len() == 4);
    assert("imap"@[0] == 'i' && "pop3"@[0] == 'p');
    let n = c.names();
    let a: int = if c.maildir is Some {
        1
    } else {
        0
    };
    let b: int = if c.imap is Some {
        a + 1
    } else {
        a
    };
    if c.maildir is Some {
        assert(n[0] == "maildir"@);
    }
    if c.imap is Some {
        assert(n[a] == "imap"@);
    }
    if c.pop3 is Some {
        assert(n[b] == "pop3"@);
    }
    assert forall|s: Seq<char>| #[trigger] n.contains(s) implies (s == "maildir"@ && c.maildir is Some) || (s
        == "imap"@ && c.imap is Some) || (s == "pop3"@ && c.pop3 is Some) by {
        let i = choose|i: int| 0 <= i < n.len() && n[i] == s;
        assert(n[i] == s);
    }
}

/// What each carrier is called, whether it can send, and what it does with a mail that failed.
pub proof fn law_carriers_are_different(m: MaildirCarrier, p: Pop3Carrier, i: ImapCarrier, s: SmtpCarrier)
    ensures
        m.called() == "maildir"@ && p.called() == "pop3"@ && i.called() == "imap"@ && s.called() == "smtp"@,
        m.refusal() is None && s.refusal() is None,
        p.refusal() == Some("POP3 cannot send — use SMTP for outbound"@),
        i.refusal() == Some("IMAP send not supported — use SMTP for outbound"@),
        m.upon_failure() is MarkProcessed,
        p.upon_failure() is LeaveAlone && i.upon_failure() is LeaveAlone && s.upon_failure() is LeaveAlone,
{
}

/// A POP3 server refuses with a line that starts so; every other line is good.
pub proof fn law_refusals_start_with_err(rest: Seq<char>, line: Seq<char>)
    ensures
        pop3_verdict("-ERR"@ + rest) == Some(ErrorView::ConfigError("POP3: "@ + text::trim("-ERR"@ + rest))),
        pop3_verdict("+OK"@ + rest) is None,
        pop3_verdict(line) is Some ==> text::starts_with(line, "-ERR"@),
{
    reveal_strlit("-ERR");
    reveal_strlit("+OK");
    text::lemma_put_together(Seq::empty(), "-ERR"@, rest);
    let ok = "+OK"@ + rest;
    assert(ok[0] == '+');
    assert("-ERR"@[0] == '-');
    if text::starts_with(ok, "-ERR"@) {
        assert(ok.take(4)[0] == '-');
    }
}

/// The number of mails is the second word of the answer; none are there if it is no number.
pub proof fn law_count_is_the_second_word(first: Seq<char>, n: nat, rest: Seq<char>)
    requires
        first.len() > 0,
        forall|i: int| 0 <= i < first.len() ==> !text::is_white(#[trigger] first[i]),
        n <= usize::MAX,
    ensures
        stat_count(first + (seq![' '] + text::dec(n) + (seq![' '] + rest))) == n,
        stat_count(first) == 0,
        stat_count(Seq::empty()) == 0,
{
    let d = text::dec(n);
    let tail = seq![' '] + rest;
    let after = seq![' '] + d + tail;
    assert(after[0] == ' ' && tail[0] == ' ');
    text::lemma_dec_digits(n);
    assert forall|i: int| 0 <= i < d.len() implies !text::is_white(#[trigger] d[i]) by {
        assert(text::is_digit(d[i]));
    }
    text::law_words_stand_between_white_space(Seq::empty(), first, after);
    text::law_words_stand_between_white_space(seq![' '], d, tail);
    assert(Seq::<char>::empty() + first + after =~= first + after);
    assert(text::words(first + after) =~= seq![first, d] + text::words(tail));
    text::law_numerals_read_back(n, usize::MAX as nat, d);
    text::law_words_stand_between_white_space(Seq::empty(), first, Seq::empty());
    assert(Seq::<char>::empty() + first + Seq::<char>::empty() =~= first);
    assert(text::words(Seq::<char>::empty()) =~= Seq::<Seq<char>>::empty());
}

/// A line that starts with two full stops loses one of them, and no other line changes. A full
/// stop alone ends the mail.
pub proof fn law_only_doubled_stops_change(rest: Seq<char>, line: Seq<char>, w: Seq<char>, v: Seq<char>)
    requires
        text::all_white(w),
        text::all_white(v),
    ensures
        unstuffed(seq!['.', '.'] + rest) == seq!['.'] + rest,
        unstuffed(line) != line ==> line.len() >= 2 && line[0] == '.' && line[1] == '.',
        ends_body(w + seq!['.'] + v),
        ends_body(line) ==> line.contains('.'),
{
    reveal_strlit("..");
    reveal_strlit(".");
    assert(".."@ =~= seq!['.', '.']);
    assert("."@ =~= seq!['.']);
    let two = seq!['.', '.'] + rest;
    assert(two.take(2) =~= seq!['.', '.']);
    assert(two.drop_first() =~= seq!['.'] + rest);
    if text::starts_with(line, ".."@) {
        assert(line.take(2)[0] == '.' && line.take(2)[1] == '.');
    }
    text::law_trimmed_is_what_stands_inside(w, seq!['.'], v);
    if ends_body(line) {
        let (a, b) = text::law_only_white_space_is_trimmed(line);
        assert((a + seq!['.'] + b)[a.len() as int] == '.');
    }
}

/// A tag is a letter and the number of the command in at least four digits.
pub proof fn law_tags_are_numbered(n: u32)
    ensures
        tag_of(n).len() >= 5,
        n < 10_000 ==> tag_of(n).len() == 5,
        tag_of(n)[0] == 'A',
        text::digits_value(tag_of(n).skip(1)) == n,
        forall|i: int| 1 <= i < tag_of(n).len() ==> text::is_digit(#[trigger] tag_of(n)[i]),
{
    reveal_strlit("A");
    reveal_strlit("0");
    reveal_strlit("00");
    reveal_strlit("000");
    reveal_with_fuel(text::dec, 5);
    lemma_four_digits(n as nat);
    text::lemma_dec_digits(n as nat);
    let f = four_digits(n as nat);
    assert(tag_of(n).skip(1) =~= f);
    let d = text::dec(n as nat);
    assert(n >= 1000 ==> text::dec((n / 1000) as nat).len() >= 1) by {
        text::lemma_dec_digits((n / 1000) as nat);
    }
    assert(n as nat / 10 / 10 / 10 == n as nat / 1000);
    assert forall|i: int| 1 <= i < tag_of(n).len() implies text::is_digit(#[trigger] tag_of(n)[i]) by {
        let zeros = f.len() - d.len();
        if i - 1 >= zeros {
            assert(tag_of(n)[i] == d[i - 1 - zeros]);
            assert(text::is_digit(d[i - 1 - zeros]));
        }
    }
}

/// A line answers a command if it starts with the command's tag. Then it is a refusal if it
/// says so, and otherwise the command is done.
pub proof fn law_tagged_line_answers(tag: Seq<char>, line: Seq<char>)
    ensures
        imap_verdict(tag, line) == Ok::<bool, ErrorView>(false) <==> !text::starts_with(text::trim(line), tag),
        imap_verdict(tag, line) is Err <==> text::starts_with(text::trim(line), tag) && (text::holds(
            text::trim(line),
            "NO"@,
        ) || text::holds(text::trim(line), "BAD"@)),
        imap_verdict(tag, line) is Err ==> imap_verdict(tag, line)->Err_0 == ErrorView::ConfigError(
            "IMAP: "@ + text::trim(line),
        ),
{
}

/// The ids that a search finds are those of all its lines in their order; a line of another
/// kind has none.
pub proof fn law_ids_of_all_lines(a: Seq<Seq<char>>, b: Seq<Seq<char>>, line: Seq<char>)
    ensures
        ids_found(a + b) == ids_found(a) + ids_found(b),
        ids_found(seq![line]) == ids_in(line),
        !text::starts_with(line, "* SEARCH"@) ==> ids_in(line) == Seq::<Seq<char>>::empty(),
        text::starts_with(line, "* SEARCH"@) && text::words(line).len() >= 2 ==> text::words(line)
            == text::words(line).take(2) + ids_in(line),
    decreases b.len(),
{
    reveal_with_fuel(ids_found, 2);
    assert(seq![line].drop_last() == Seq::<Seq<char>>::empty());
    assert(ids_found(seq![line]) =~= ids_in(line));
    assert(text::words(line).len() >= 2 && text::starts_with(line, "* SEARCH"@) ==> text::words(line)
        =~= text::words(line).take(2) + ids_in(line));
    if b.len() == 0 {
        assert(a + b =~= a);
        assert(ids_found(a) + ids_found(b) =~= ids_found(a));
    } else {
        law_ids_of_all_lines(a, b.drop_last(), line);
        assert((a + b).drop_last() =~= a + b.drop_last());
        assert((a + b).last() == b.last());
        assert(ids_found(a + b) =~= ids_found(a) + ids_found(b));
    }
}

/// The size of a mail is the number in the last braces of a line.
pub proof fn law_size_stands_in_the_last_braces(before: Seq<char>, n: nat, after: Seq<char>)
    requires
        n <= usize::MAX,
        !after.contains('{'),
        !after.contains('}'),
    ensures
        literal_size(before + seq!['{'] + text::dec(n) + seq!['}'] + after) == Some(n),
        literal_size(after) is None,
{
    let d = text::dec(n);
    let line = before + seq!['{'] + d + seq!['}'] + after;
    text::lemma_last_index(line, '{');
    text::lemma_last_index(line, '}');
    text::lemma_last_index(after, '{');
    text::lemma_dec_digits(n);
    if let Some(i) = text::last_index(after, '{') {
        assert(after.contains(after[i]));
    }
    let a = before.len() as int;
    let b = a + 1 + d.len();
    assert(line[a] == '{' && line[b] == '}');
    assert(line.contains('{') && line.contains('}'));
    assert forall|k: int| a < k < line.len() implies line[k] != '{' && (k == b || line[k] != '}') by {
        if k < b {
            assert(text::is_digit(d[k - a - 1]));
        } else if k > b {
            assert(after[k - b - 1] == line[k]);
        }
    }
    assert(text::last_index(line, '{') == Some(a));
    assert(text::last_index(line, '}') == Some(b));
    assert(line.subrange(a + 1, b) =~= d);
    text::law_numerals_read_back(n, usize::MAX as nat, d);
}

/// Within a mail a line is taken as far as the mail goes. Outside it the tag ends the answer,
/// a size starts the mail, and nothing else is taken.
pub proof fn law_lines_of_a_fetched_mail(data: Seq<u8>, remaining: nat, tag: Seq<char>, line: Seq<char>)
    ensures
        encode_utf8(line).len() <= remaining ==> fetched(data, remaining, true, tag, line).0.0 == data
            + encode_utf8(line),
        encode_utf8(line).len() >= remaining ==> fetched(data, remaining, true, tag, line).0.0 == data
            + encode_utf8(line).take(remaining as int) && !fetched(data, remaining, true, tag, line).0.2,
        fetched(data, remaining, false, tag, line).0.0 == data,
        fetched(data, remaining, false, tag, line).1 <==> text::starts_with(text::trim(line), tag),
        fetched(data, remaining, false, tag, line).0.2 ==> literal_size(text::trim(line)) == Some(
            fetched(data, remaining, false, tag, line).0.1,
        ),
        !text::starts_with(text::trim(line), tag) && literal_size(text::trim(line)) is Some ==> fetched(
            data,
            remaining,
            false,
            tag,
            line,
        ).0.2,
{
    let bytes = encode_utf8(line);
    assert(bytes.take(bytes.len() as int) =~= bytes);
}

/// What a mail server is told: who speaks, who sends, who gets it, and the mail, which a full
/// stop on a line of its own ends.
pub proof fn law_conversation_has_five_parts(server: Seq<char>, from: Seq<char>, to: Seq<char>, raw: Seq<u8>)
    ensures
        smtp_parts(server, from, to, raw).len() == 5,
        smtp_parts(server, from, to, raw)[0] == encode_utf8("EHLO "@ + server + "\r\n"@),
        smtp_parts(server, from, to, raw)[1] == encode_utf8("MAIL FROM:<"@ + from + ">\r\n"@),
        smtp_parts(server, from, to, raw)[2] == encode_utf8("RCPT TO:<"@ + to + ">\r\n"@),
        smtp_parts(server, from, to, raw)[3] == encode_utf8("DATA\r\n"@),
        smtp_parts(server, from, to, raw)[4] == raw + encode_utf8("\r\n.\r\n"@),
{
}


/// Where the second word is no number that fits, no mails are counted.
pub proof fn law_unreadable_count_is_none(line: Seq<char>)
    requires
        text::words(line).len() < 2 || text::numeral(text::words(line)[1], usize::MAX as nat) is None,
    ensures
        stat_count(line) == 0,
{
}

} // verus!
