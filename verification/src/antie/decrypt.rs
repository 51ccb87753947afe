//! The validator's keys for opening what was sealed to it.
use vstd::prelude::*;
use crate::antie::email::{EnvelopeView, UmpEnvelope};
use crate::antie::error::{AntieError, ErrorView};
use crate::antie::payload;
use crate::paths;
use crate::text;

verus! {

/// The Ed25519 public key of a secret seed.
pub uninterp spec fn ed25519_public(seed: Seq<u8>) -> Seq<u8>;

/// `ed25519_dalek::SigningKey::from_bytes`, then `verifying_key` and `to_bytes`: the public
/// key that belongs to a seed.
#[verifier::external_body]
fn public_key_of(seed: &[u8; 32]) -> (r: [u8; 32])
    ensures
        r@ == ed25519_public(seed@),
{
    ed25519_dalek::SigningKey::from_bytes(seed).verifying_key().to_bytes()
}

/// The first half of the SHA-512 digest of a secret seed.
pub uninterp spec fn ed25519_scalar(seed: Seq<u8>) -> Seq<u8>;

/// `ed25519_dalek::SigningKey::to_scalar_bytes`: the first 32 bytes of the SHA-512 digest of
/// the seed, not clamped.
#[verifier::external_body]
fn scalar_of(seed: &[u8; 32]) -> (r: [u8; 32])
    ensures
        r@ == ed25519_scalar(seed@),
{
    ed25519_dalek::SigningKey::from_bytes(seed).to_scalar_bytes()
}

/// The X25519 public key for an Ed25519 public key; `None` where those bytes are no key.
pub uninterp spec fn montgomery_form(public_key: Seq<u8>) -> Option<Seq<u8>>;

/// `ed25519_dalek::VerifyingKey::from_bytes`, then `to_montgomery`: the X25519 public key that
/// belongs to an Ed25519 public key, if the bytes are one.
#[verifier::external_body]
fn montgomery_of(public_key: &[u8; 32]) -> (r: Option<[u8; 32]>)
    ensures
        payload::opt(r) == montgomery_form(public_key@),
{
    ed25519_dalek::VerifyingKey::from_bytes(public_key).ok().map(|k| k.to_montgomery().to_bytes())
}

/// A scalar clamped for X25519: a multiple of eight whose topmost set bit is the last but one.
pub open spec fn clamped(scalar: Seq<u8>) -> Seq<u8> {
    scalar.update(0, (scalar[0] - scalar[0] % 8) as u8).update(31, (64 + scalar[31] % 64) as u8)
}

/// The validator's Ed25519 public key and the X25519 secret derived from its seed.
#[derive(Debug)]
pub struct EnvelopeDecryptor {
    /// The Ed25519 public key; it names the validator as a recipient.
    pub ed25519_pk: [u8; 32],
    x25519_sk: [u8; 32],
}

/// What is said of a key file that cannot be read.
pub open spec fn unreadable_key(path: Seq<char>, fault: Seq<char>) -> Seq<char> {
    "validator.private_key_path read failed at "@ + paths::path_debug_text(path) + ": "@ + fault
}

/// What is said of a key file of the wrong length.
pub open spec fn wrong_key_length(path: Seq<char>, len: nat) -> Seq<char> {
    "validator.private_key_path: expected 32-byte Ed25519 seed at "@ + paths::path_debug_text(path)
        + ", got "@ + text::dec(len) + " bytes"@
}

impl EnvelopeDecryptor {
    /// The Ed25519 public key.
    pub closed spec fn recipient(self) -> Seq<u8> {
        self.ed25519_pk@
    }

    /// The X25519 secret.
    pub closed spec fn secret(self) -> Seq<u8> {
        self.x25519_sk@
    }

    /// The decryptor for the seed read from a key file.
    pub fn from_key_file(path: &str, read: Result<Vec<u8>, String>) -> (r: Result<
        EnvelopeDecryptor,
        AntieError,
    >)
        ensures
            match read {
                Err(fault) => r matches Err(e) && e@ == ErrorView::ConfigError(
                    unreadable_key(path@, fault@),
                ),
                Ok(seed) => if seed@.len() == 32 {
                    r matches Ok(d) && d.recipient() == ed25519_public(seed@) && d.secret() == clamped(
                        ed25519_scalar(seed@),
                    )
                } else {
                    r matches Err(e) && e@ == ErrorView::ConfigError(
                        wrong_key_length(path@, seed@.len()),
                    )
                },
            },
    {
        match read {
            Err(fault) => {
                let mut m = String::from_str("validator.private_key_path read failed at ");
                m.append(paths::path_debug_string(path).as_str());
                m.append(": ");
                m.append(fault.as_str());
                Err(AntieError::ConfigError(m))
            },
            Ok(bytes) => {
                if bytes.len() != 32 {
                    let mut m = String::from_str(
                        "validator.private_key_path: expected 32-byte Ed25519 seed at ",
                    );
                    m.append(paths::path_debug_string(path).as_str());
                    m.append(", got ");
                    text::push_dec(&mut m, bytes.len() as u64);
                    m.append(" bytes");
                    return Err(AntieError::ConfigError(m));
                }
                let mut seed: [u8; 32] = [0u8;32];
                let mut i: usize = 0;
                while i < 32
                    invariant
                        i <= 32,
                        bytes@.len() == 32,
                        seed@.len() == 32,
                        forall|k: int| 0 <= k < i ==> seed@[k] == bytes@[k],
                    decreases 32 - i,
                {
                    seed[i] = bytes[i];
                    i = i + 1;
                }
                proof {
                    assert(seed@ == bytes@);
                }
                let ed25519_pk = public_key_of(&seed);
                let mut x25519_sk = scalar_of(&seed);
                let ghost scalar = x25519_sk@;
                let first: u8 = x25519_sk[0] - x25519_sk[0] % 8;
                let last: u8 = 64 + x25519_sk[31] % 64;
                x25519_sk[0] = first;
                x25519_sk[31] = last;
                proof {
                    assert(x25519_sk@ == clamped(scalar));
                }
                Ok(EnvelopeDecryptor { ed25519_pk, x25519_sk })
            },
        }
    }

    /// The request in a sealed envelope, given what unsealing it gave. An open envelope is not
    /// for the decryptor.
    pub fn open(&self, env: &UmpEnvelope, unsealed: Option<Vec<u8>>) -> (r: Result<Vec<u8>, ()>)
        ensures
            match (env@, unsealed) {
                (EnvelopeView::Encrypted, Some(b)) => r matches Ok(got) && got@ == b@,
                _ => r is Err,
            },
    {
        match (env, unsealed) {
            (UmpEnvelope::Encrypted, Some(b)) => Ok(b),
            _ => Err(()),
        }
    }

    /// The X25519 public key for the validator's Ed25519 key.
    pub fn x25519_public_key(&self) -> (r: Option<[u8; 32]>)
        ensures
            payload::opt(r) == montgomery_form(self.recipient()),
    {
        montgomery_of(&self.ed25519_pk)
    }

    /// The X25519 secret.
    pub fn x25519_secret(&self) -> (r: &[u8; 32])
        ensures
            r@ == self.secret(),
    {
        &self.x25519_sk
    }
}


/// A clamped scalar is a multiple of eight, has its last bit but one set and its last one not,
/// and is otherwise the scalar that was given. Clamping it again changes nothing.
pub proof fn law_clamped_scalar(scalar: Seq<u8>)
    requires
        scalar.len() == 32,
    ensures
        clamped(scalar).len() == 32,
        clamped(scalar)[0] % 8 == 0,
        clamped(scalar)[0] / 8 == scalar[0] / 8,
        clamped(scalar)[31] / 64 == 1,
        clamped(scalar)[31] % 64 == scalar[31] % 64,
        forall|i: int| 1 <= i < 31 ==> #[trigger] clamped(scalar)[i] == scalar[i],
        clamped(clamped(scalar)) == clamped(scalar),
{
    let c = clamped(scalar);
    assert(clamped(c) =~= c);
}

/// What is said of a key file names the file, and what is wrong with it.
pub proof fn law_key_errors_name_the_file(path: Seq<char>, fault: Seq<char>, len: nat)
    ensures
        unreadable_key(path, fault) == "validator.private_key_path read failed at "@ + paths::path_debug_text(
            path,
        ) + ": "@ + fault,
        wrong_key_length(path, len) == "validator.private_key_path: expected 32-byte Ed25519 seed at "@
            + paths::path_debug_text(path) + ", got "@ + text::dec(len) + " bytes"@,
{
}

} // verus!
