//! OpenPGP encryption of cheques: finding the receiver's key and using it.
use std::io::Write;
use sequoia_openpgp::Cert;
use sequoia_openpgp::parse::Parse;
use sequoia_openpgp::policy::StandardPolicy;
use sequoia_openpgp::serialize::stream::{Encryptor, LiteralWriter, Message};
use vstd::prelude::*;
use crate::antie::limiter::{instant_now, nanos_since};
use crate::antie::payload;
use crate::table::Table;
use crate::text;

verus! {

/// The keyserver that is asked for keys.
pub const DEFAULT_KEYSERVER: &'static str = "https://keys.openpgp.org";

/// How long an answer of the keyserver is good, in nanoseconds: one hour.
pub const KEY_CACHE_TTL: u64 = 3_600_000_000_000;

/// `sequoia_openpgp::Cert`: an OpenPGP certificate.
#[verifier::external_type_specification]
#[verifier::external_body]
pub struct ExCert(Cert);

/// What is said against bytes that are no certificate.
pub uninterp spec fn cert_fault(b: Seq<u8>) -> Option<Seq<char>>;

/// `sequoia_openpgp::Cert::from_bytes`: the certificate in some bytes, or the text of the
/// error.
#[verifier::external_body]
fn parse_cert(b: &[u8]) -> (r: Result<Cert, String>)
    ensures
        (match r {
            Ok(_) => None,
            Err(e) => Some(e@),
        }) == cert_fault(b@),
{
    Cert::from_bytes(b).map_err(|e| e.to_string())
}

/// The step at which encryption failed, with the text of the error; of the first, also how many
/// keys there were to encrypt to.
pub enum SealFault {
    Encryptor(usize, String),
    Writer(String),
    Write(String),
    Finalize(String),
}

/// The number of the cipher that messages are encrypted with in OpenPGP: AES-256.
pub const AES_256: u8 = 9;

/// Whether a message is one that can come of encrypting a content with a cipher to the usable
/// keys of a certificate.
pub uninterp spec fn is_sealed(cert: Seq<u8>, cipher: u8, plaintext: Seq<u8>, message: Seq<u8>) -> bool;

/// `sequoia_openpgp::serialize::stream::Encryptor` and `LiteralWriter`: writes the message with
/// the given content, encrypted with the given cipher to those keys of the certificate in some
/// bytes that can be encrypted to now. Without such keys the first step fails. How many there
/// are depends on the time, and so does whether it succeeds: neither is said. The session key is
/// drawn at random, so that many messages can come of it: of the bytes it is said only that they
/// are one of these.
#[verifier::external_body]
fn seal(cert: &[u8], cipher: u8, plaintext: &[u8], out: &mut Vec<u8>) -> (r: Result<(), SealFault>)
    requires
        cert_fault(cert@) is None,
        cipher == AES_256,
        old(out)@.len() == 0,
    ensures
        r is Ok ==> is_sealed(cert@, cipher, plaintext@, final(out)@),
{
    let policy = StandardPolicy::new();
    let cert = Cert::from_bytes(cert).unwrap();
    let keys = Vec::from_iter(cert.keys().with_policy(&policy, None).supported().alive().revoked(false).for_transport_encryption());
    let count = keys.len();
    let mut writer = LiteralWriter::new(
        Encryptor::for_recipients(Message::new(out), keys)
            .symmetric_algo(cipher.into())
            .build()
            .map_err(|e| SealFault::Encryptor(count, e.to_string()))?
    ).build().map_err(|e| SealFault::Writer(e.to_string()))?;
    writer.write_all(plaintext).map_err(|e| SealFault::Write(e.to_string()))?;
    writer.finalize().map_err(|e| SealFault::Finalize(e.to_string()))
}

/// What is said of a failed encryption.
pub open spec fn seal_fault_text(f: SealFault) -> Seq<char> {
    match f {
        SealFault::Encryptor(keys, e) => if keys == 0 {
            "No usable encryption key in cert"@
        } else {
            "PGP encryptor: "@ + e@
        },
        SealFault::Writer(e) => "PGP writer: "@ + e@,
        SealFault::Write(e) => "PGP write: "@ + e@,
        SealFault::Finalize(e) => "PGP finalize: "@ + e@,
    }
}

/// What is said of a failed encryption.
pub fn seal_fault(f: SealFault) -> (r: String)
    ensures
        r@ == seal_fault_text(f),
{
    let (label, e) = match f {
        SealFault::Encryptor(keys, e) => {
            if keys == 0 {
                return String::from_str("No usable encryption key in cert");
            }
            ("PGP encryptor: ", e)
        },
        SealFault::Writer(e) => ("PGP writer: ", e),
        SealFault::Write(e) => ("PGP write: ", e),
        SealFault::Finalize(e) => ("PGP finalize: ", e),
    };
    let mut m = String::from_str(label);
    m.append(e.as_str());
    m
}

/// Encrypts to a certificate. What is not a certificate gives an error, and so does a failed
/// step, with the text of [`seal_fault`]. Which keys are usable depends on the time, so success
/// is not promised.
pub fn encrypt(cert_bytes: &[u8], plaintext: &[u8]) -> (r: Result<Vec<u8>, String>)
    ensures
        match cert_fault(cert_bytes@) {
            Some(e) => r matches Err(m) && m@ == "PGP cert parse: "@ + e,
            None => match r {
                Ok(message) => is_sealed(cert_bytes@, AES_256, plaintext@, message@),
                Err(m) => exists|f: SealFault| m@ == seal_fault_text(f),
            },
        },
{
    match parse_cert(cert_bytes) {
        Err(e) => {
            let mut m = String::from_str("PGP cert parse: ");
            m.append(e.as_str());
            Err(m)
        },
        Ok(_) => {
            let mut message: Vec<u8> = Vec::new();
            match seal(cert_bytes, AES_256, plaintext, &mut message) {
                Ok(()) => Ok(message),
                Err(f) => Err(seal_fault(f)),
            }
        },
    }
}

/// The line that begins an armored message.
pub const ARMOR_HEADER: [u8; 27] = [
    45, 45, 45, 45, 45, 66, 69, 71, 73, 78, 32, 80, 71, 80, 32, 77, 69, 83, 83, 65, 71, 69, 45, 45, 45, 45, 45,
];

/// Whether bytes look like an OpenPGP message: a packet tag, or armor.
pub open spec fn looks_encrypted(b: Seq<u8>) -> bool {
    b.len() > 0 && (b[0] >= 128 || (b.len() >= 27 && b.take(27) == ARMOR_HEADER@))
}

/// Whether data looks like an OpenPGP message.
pub fn is_pgp_encrypted(data: &[u8]) -> (r: bool)
    ensures
        r == looks_encrypted(data@),
{
    if data.len() == 0 {
        return false;
    }
    if data[0] >= 128 {
        return true;
    }
    if data.len() < 27 {
        return false;
    }
    let head = vstd::slice::slice_subrange(data, 0, 27);
    assert(head@ == data@.take(27));
    let armor: [u8; 27] = ARMOR_HEADER;
    text::same_bytes(head, armor.as_slice())
}

/// An answer of the keyserver: a certificate, or that there is none.
#[derive(Debug)]
pub struct CachedKey {
    /// The certificate, if there is one.
    pub bytes: Option<Vec<u8>>,
    /// When it was asked for, in nanoseconds on the cache's clock.
    pub fetched_at: u64,
}

impl CachedKey {
    /// Whether the answer is still good.
    pub open spec fn fresh(self, now: u64) -> bool {
        now < self.fetched_at + KEY_CACHE_TTL
    }

    /// Whether the answer is still good.
    pub fn is_fresh(&self, now: u64) -> (r: bool)
        ensures
            r == self.fresh(now),
    {
        now < self.fetched_at || now - self.fetched_at < KEY_CACHE_TTL
    }
}

/// What is to be done to find a key.
pub enum KeyLookup {
    /// It is known: the certificate, or that there is none.
    Known(Option<Vec<u8>>),
    /// The keyserver has to be asked, at this address.
    Ask(String),
}

/// The answers of the keyserver.
pub struct KeyCache {
    start: std::time::Instant,
    answers: Table<CachedKey>,
}

/// The address at which the keyserver answers for a mail address.
pub open spec fn key_url(email: Seq<char>) -> Seq<char> {
    DEFAULT_KEYSERVER@ + "/vks/v1/by-email/"@ + text::replaced(email, '@', "%40"@)
}

/// The certificate that an answer of the keyserver gives: what is no certificate counts as
/// none.
pub open spec fn certificate(response: Option<Seq<u8>>) -> Option<Seq<u8>> {
    match response {
        Some(b) => if cert_fault(b) is None {
            Some(b)
        } else {
            None
        },
        None => None,
    }
}

impl KeyCache {
    /// The answer remembered for a mail address.
    pub closed spec fn at(self, email: Seq<char>) -> Option<CachedKey> {
        self.answers.at(email)
    }

    /// Whether each mail address has one answer.
    pub closed spec fn wf(self) -> bool {
        self.answers.wf()
    }

    /// A cache that remembers nothing.
    pub fn new() -> (r: KeyCache)
        ensures
            r.wf(),
            forall|email: Seq<char>| #[trigger] r.at(email) is None,
    {
        KeyCache { start: instant_now(), answers: Table::new() }
    }

    /// The time now, on the cache's clock: any number can come back. What is done at a given time
    /// is said by [`KeyCache::lookup_key_bytes`] and [`KeyCache::answered`].
    pub fn now(&self) -> (r: u64) {
        nanos_since(&self.start)
    }

    /// Looks a key up. Addresses at `@axiom` have none. A good answer is used again; one that
    /// is too old is forgotten.
    pub fn lookup_key_bytes(&mut self, email: &str, now: u64) -> (r: KeyLookup)
        requires
            old(self).wf(),
        ensures
            final(self).wf(),
            forall|k: Seq<char>| k != email@ ==> #[trigger] final(self).at(k) == old(self).at(k),
            if text::ends_with(email@, "@axiom"@) {
                r == KeyLookup::Known(None) && final(self).at(email@) == old(self).at(email@)
            } else {
                match old(self).at(email@) {
                    Some(key) if key.fresh(now) => final(self).at(email@) == old(self).at(email@) && (
                    r matches KeyLookup::Known(b) && payload::opt(b) == payload::opt(key.bytes)),
                    _ => final(self).at(email@) is None && (r matches KeyLookup::Ask(url) && url@
                        == key_url(email@)),
                }
            },
    {
        if text::has_suffix(email, "@axiom") {
            return KeyLookup::Known(None);
        }
        let expired = match self.answers.get(email) {
            Some(key) => {
                if key.is_fresh(now) {
                    return KeyLookup::Known(copy_bytes(&key.bytes));
                }
                true
            },
            None => false,
        };
        if expired {
            self.answers.remove(email);
        }
        let mut url = String::from_str(DEFAULT_KEYSERVER);
        url.append("/vks/v1/by-email/");
        url.append(text::replace_char(email, '@', "%40").as_str());
        KeyLookup::Ask(url)
    }

    /// Takes over what the keyserver answered: the bytes it sent, or `None` if it could not be
    /// reached or knew no key. Returns the certificate, if it is one; either way the outcome is
    /// remembered.
    pub fn answered(&mut self, email: &str, now: u64, response: Option<Vec<u8>>) -> (r: Option<Vec<u8>>)
        requires
            old(self).wf(),
        ensures
            final(self).wf(),
            payload::opt(r) == certificate(payload::opt(response)),
            forall|k: Seq<char>| k != email@ ==> #[trigger] final(self).at(k) == old(self).at(k),
            final(self).at(email@) matches Some(key) && payload::opt(key.bytes) == payload::opt(r)
                && key.fetched_at == now,
    {
        let bytes = match response {
            Some(b) => match parse_cert(b.as_slice()) {
                Ok(_) => Some(b),
                Err(_) => None,
            },
            None => None,
        };
        let copy = copy_bytes(&bytes);
        self.answers.insert(email, CachedKey { bytes: copy, fetched_at: now });
        bytes
    }
}

/// A copy of optional bytes.
fn copy_bytes(b: &Option<Vec<u8>>) -> (r: Option<Vec<u8>>)
    ensures
        payload::opt(r) == payload::opt(*b),
{
    match b {
        Some(v) => Some(vstd::slice::slice_to_vec(v.as_slice())),
        None => None,
    }
}

/// What goes out after an attempt to encrypt: what it gave, and `true`, or the content as it
/// is, and `false`, if it failed.
pub fn encrypted_or_plain(outcome: Result<Vec<u8>, String>, plaintext: &[u8]) -> (r: (Vec<u8>, bool))
    ensures
        match outcome {
            Ok(b) => r.1 && r.0@ == b@,
            Err(_) => !r.1 && r.0@ == plaintext@,
        },
{
    match outcome {
        Ok(b) => (b, true),
        Err(_) => (vstd::slice::slice_to_vec(plaintext), false),
    }
}

/// Encrypts to a certificate if there is one. Returns the content as it is, and `false`, if
/// there is none or encryption fails.
pub fn try_encrypt_for_email(cert: Option<Vec<u8>>, plaintext: &[u8]) -> (r: (Vec<u8>, bool))
    ensures
        cert is None ==> !r.1,
        cert matches Some(c) ==> cert_fault(c@) is Some ==> !r.1,
        !r.1 ==> r.0@ == plaintext@,
        r.1 ==> (cert matches Some(c) && cert_fault(c@) is None && is_sealed(c@, AES_256, plaintext@, r.0@)),
{
    match cert {
        Some(c) => encrypted_or_plain(encrypt(c.as_slice(), plaintext), plaintext),
        None => (vstd::slice::slice_to_vec(plaintext), false),
    }
}


/// What a fault in sealing is called: by the step in which it came, or that there is no key.
pub proof fn law_seal_faults_name_their_step(keys: usize, e: String)
    ensures
        seal_fault_text(SealFault::Encryptor(0, e)) == "No usable encryption key in cert"@,
        keys > 0 ==> seal_fault_text(SealFault::Encryptor(keys, e)) == "PGP encryptor: "@ + e@,
        seal_fault_text(SealFault::Writer(e)) == "PGP writer: "@ + e@,
        seal_fault_text(SealFault::Write(e)) == "PGP write: "@ + e@,
        seal_fault_text(SealFault::Finalize(e)) == "PGP finalize: "@ + e@,
{
}

/// Whether bytes look encrypted is seen at their start, whatever follows: a byte with its
/// highest bit set, or the line that begins a message.
pub proof fn law_encryption_is_seen_at_the_start(b: Seq<u8>, first: u8, rest: Seq<u8>)
    ensures
        !looks_encrypted(Seq::empty()),
        first >= 0x80 ==> looks_encrypted(seq![first] + rest),
        looks_encrypted(ARMOR_HEADER@ + rest),
        looks_encrypted(b) ==> b[0] >= 0x80 || b[0] == 0x2d,
        ARMOR_HEADER@.len() == "-----BEGIN PGP MESSAGE-----"@.len(),
        forall|i: int|
            0 <= i < ARMOR_HEADER@.len() ==> #[trigger] ARMOR_HEADER@[i] as int
                == "-----BEGIN PGP MESSAGE-----"@[i] as int,
        b.len() > 0 && b[0] < 0x80 ==> (looks_encrypted(b) <==> exists|r: Seq<u8>| b == #[trigger] (
        ARMOR_HEADER@ + r)),
{
    reveal_strlit("-----BEGIN PGP MESSAGE-----");
    let one = seq![first] + rest;
    assert(one[0] == first);
    let all = ARMOR_HEADER@ + rest;
    assert(all.take(27) =~= ARMOR_HEADER@);
    assert(ARMOR_HEADER@[0] == 0x2d);
    if b.len() >= 27 && b.take(27) == ARMOR_HEADER@ {
        assert(b[0] == b.take(27)[0]);
        assert(b =~= ARMOR_HEADER@ + b.skip(27));
    }
    if exists|r: Seq<u8>| b == #[trigger] (ARMOR_HEADER@ + r) {
        assert(b.take(27) =~= ARMOR_HEADER@);
    }
}

/// A key is kept for an hour.
pub proof fn law_keys_are_kept_for_an_hour(k: CachedKey, now: u64)
    ensures
        k.fresh(now) <==> now - k.fetched_at < 60 * 60 * 1_000_000_000,
{
}

/// The key for an address is asked for by that address, its at sign written out.
pub proof fn law_key_is_asked_for_by_address(user: Seq<char>, domain: Seq<char>)
    requires
        !user.contains('@'),
        !domain.contains('@'),
    ensures
        key_url(user + seq!['@'] + domain) == "https://keys.openpgp.org"@ + "/vks/v1/by-email/"@ + (user
            + seq!['%', '4', '0'] + domain),
{
    reveal_strlit("%40");
    assert("%40"@ =~= seq!['%', '4', '0']);
    text::law_nothing_to_replace(user, '@', "%40"@);
    text::law_nothing_to_replace(domain, '@', "%40"@);
    text::law_replaced_part_by_part(user, seq!['@'], '@', '@', "%40"@);
    text::law_replaced_part_by_part(user + seq!['@'], domain, '@', '@', "%40"@);
}

/// An answer of the key server is a certificate unless there is a fault in it.
pub proof fn law_only_certificates_are_taken(response: Option<Seq<u8>>, b: Seq<u8>)
    ensures
        certificate(Some(b)) is Some <==> cert_fault(b) is None,
        certificate(response) is Some ==> certificate(response) == response,
        certificate(None) is None,
{
}

} // verus!
