use axiom_carriers::antie::pgp::{
    encrypt, encrypted_or_plain, is_pgp_encrypted, seal_fault, try_encrypt_for_email, CachedKey, KeyCache, KeyLookup, SealFault,
    KEY_CACHE_TTL,
};
use sequoia_openpgp as openpgp;
use openpgp::cert::CertBuilder;
use openpgp::crypto::SessionKey;
use openpgp::parse::stream::{DecryptionHelper, DecryptorBuilder, MessageStructure, VerificationHelper};
use openpgp::parse::Parse;
use openpgp::policy::StandardPolicy;
use openpgp::serialize::Marshal;
use openpgp::types::SymmetricAlgorithm;

struct Helper<'a> {
    policy: &'a StandardPolicy<'a>,
    secret: &'a openpgp::Cert,
}

impl VerificationHelper for Helper<'_> {
    fn get_certs(&mut self, _ids: &[openpgp::KeyHandle]) -> openpgp::Result<Vec<openpgp::Cert>> {
        Ok(vec![])
    }
    fn check(&mut self, _structure: MessageStructure) -> openpgp::Result<()> {
        Ok(())
    }
}

impl DecryptionHelper for Helper<'_> {
    fn decrypt(
        &mut self,
        pkesks: &[openpgp::packet::PKESK],
        _skesks: &[openpgp::packet::SKESK],
        sym_algo: Option<SymmetricAlgorithm>,
        decrypt: &mut dyn FnMut(Option<SymmetricAlgorithm>, &SessionKey) -> bool,
    ) -> openpgp::Result<Option<openpgp::Cert>> {
        for pkesk in pkesks {
            for ka in self
                .secret
                .keys()
                .with_policy(self.policy, None)
                .supported()
                .unencrypted_secret()
                .for_transport_encryption()
            {
                if let Ok(mut kp) = ka.key().clone().into_keypair() {
                    if pkesk.decrypt(&mut kp, sym_algo).map(|(algo, sk)| decrypt(algo, &sk)).unwrap_or(false) {
                        return Ok(None);
                    }
                }
            }
        }
        Err(openpgp::Error::ManipulatedMessage.into())
    }
}

fn decrypt(secret_cert_bytes: &[u8], ciphertext: &[u8]) -> Result<Vec<u8>, String> {
    let policy = StandardPolicy::new();
    let secret = openpgp::Cert::from_bytes(secret_cert_bytes).map_err(|e| e.to_string())?;
    let helper = Helper { policy: &policy, secret: &secret };
    let mut decryptor = DecryptorBuilder::from_bytes(ciphertext)
        .map_err(|e| e.to_string())?
        .with_policy(&policy, None, helper)
        .map_err(|e| e.to_string())?;
    let mut plaintext = Vec::new();
    std::io::copy(&mut decryptor, &mut plaintext).map_err(|e| e.to_string())?;
    Ok(plaintext)
}

/// A key pair: with its secret, and without.
fn generate_test_keypair(email: &str) -> (Vec<u8>, Vec<u8>) {
    let (cert, _revocation) =
        CertBuilder::new().add_userid(email).add_transport_encryption_subkey().generate().unwrap();
    let mut secret_bytes = Vec::new();
    cert.as_tsk().serialize(&mut secret_bytes).unwrap();
    let mut public_bytes = Vec::new();
    cert.serialize(&mut public_bytes).unwrap();
    (secret_bytes, public_bytes)
}

#[test]
fn test_encrypt_decrypt_roundtrip() {
    let (secret_bytes, public_bytes) = generate_test_keypair("test@axiom.local");
    let plaintext = b"AXIOM cheque payload: 1000000 atoms to bob@example.com";

    // Encrypt with public key
    let encrypted = encrypt(&public_bytes, plaintext).unwrap();
    assert_ne!(encrypted, plaintext, "Encrypted should differ from plaintext");
    assert!(is_pgp_encrypted(&encrypted), "Should detect as PGP encrypted");

    // Decrypt with secret key
    let decrypted = decrypt(&secret_bytes, &encrypted).unwrap();
    assert_eq!(decrypted, plaintext, "Decrypted should match original");
}

#[test]
fn test_encrypt_different_keys_cannot_decrypt() {
    let (_secret_a, public_a) = generate_test_keypair("alice@axiom.local");
    let (secret_b, _public_b) = generate_test_keypair("bob@axiom.local");

    let plaintext = b"Secret cheque for Alice only";
    let encrypted = encrypt(&public_a, plaintext).unwrap();

    // Bob's key should NOT decrypt Alice's message
    let result = decrypt(&secret_b, &encrypted);
    assert!(result.is_err(), "Wrong key should fail to decrypt");
}

#[test]
fn test_is_pgp_encrypted() {
    assert!(!is_pgp_encrypted(b""), "Empty is not PGP");
    assert!(!is_pgp_encrypted(b"plain text"), "Plain text is not PGP");
    assert!(is_pgp_encrypted(b"-----BEGIN PGP MESSAGE-----"), "Armored PGP detected");

    // Generate real encrypted data to test binary detection
    let (_secret, public) = generate_test_keypair("test@axiom.local");
    let encrypted = encrypt(&public, b"test").unwrap();
    assert!(is_pgp_encrypted(&encrypted), "Binary PGP detected");
}

#[test]
fn test_large_payload_encrypt_decrypt() {
    let (secret, public) = generate_test_keypair("big@axiom.local");

    // Simulate a large cheque payload (10KB CBOR)
    let plaintext: Vec<u8> = (0..10_000).map(|i| (i % 256) as u8).collect();

    let encrypted = encrypt(&public, &plaintext).unwrap();
    let decrypted = decrypt(&secret, &encrypted).unwrap();
    assert_eq!(decrypted, plaintext, "Large payload roundtrip");
}

#[test]
fn test_cache_ttl_expiry() {
    let now: u64 = 7_200_000_000_000; // 2 hours
    let entry = CachedKey { bytes: Some(vec![1, 2, 3]), fetched_at: 0 };

    // Entry created 2 hours ago should exceed the 1-hour TTL
    assert!(!entry.is_fresh(now), "CachedKey from 2h ago should be expired (TTL=1h)");

    // A fresh entry should NOT be expired
    let fresh = CachedKey { bytes: Some(vec![4, 5, 6]), fetched_at: now };
    assert!(fresh.is_fresh(now), "Fresh CachedKey should not be expired");
    assert!(entry.is_fresh(KEY_CACHE_TTL - 1));
    assert!(!entry.is_fresh(KEY_CACHE_TTL));
}

#[test]
fn test_aes256_explicitly_set() {
    let (secret, public) = generate_test_keypair("aes256-test@axiom.local");
    let plaintext = b"AES-256 explicit cipher test payload for AXIOM cheque";

    let encrypted = encrypt(&public, plaintext).unwrap();
    assert!(!encrypted.is_empty(), "Encrypted output should not be empty");
    assert_ne!(&encrypted[..], plaintext, "Ciphertext must differ from plaintext");

    let decrypted = decrypt(&secret, &encrypted).unwrap();
    assert_eq!(decrypted, plaintext, "AES-256 roundtrip must preserve plaintext");
}

#[test]
fn test_graceful_fallback_no_key() {
    let plaintext = b"This should pass through unencrypted";
    let (data, encrypted) = try_encrypt_for_email(None, plaintext);
    assert!(!encrypted, "Should not be encrypted (no key)");
    assert_eq!(data, plaintext, "Plaintext should pass through unchanged");

    let (data, encrypted) = try_encrypt_for_email(Some(b"no certificate".to_vec()), plaintext);
    assert!(!encrypted);
    assert_eq!(data, plaintext);

    let (secret, public) = generate_test_keypair("k@axiom.local");
    let (data, encrypted) = try_encrypt_for_email(Some(public), plaintext);
    assert!(encrypted);
    assert_eq!(decrypt(&secret, &data).unwrap(), plaintext);
}

#[test]
fn what_is_no_certificate_is_refused() {
    assert!(encrypt(b"no certificate", b"x").unwrap_err().starts_with("PGP cert parse: "));
}

#[test]
fn a_certificate_needs_a_key_to_encrypt_to() {
    let (cert, _revocation) =
        CertBuilder::new().add_userid("a@axiom.local").add_signing_subkey().generate().unwrap();
    let mut bytes = Vec::new();
    cert.serialize(&mut bytes).unwrap();
    assert_eq!(encrypt(&bytes, b"x").unwrap_err(), "No usable encryption key in cert");
    assert_eq!(try_encrypt_for_email(Some(bytes), b"x"), (b"x".to_vec(), false));
}

#[test]
fn faults_of_sealing() {
    let faults = vec![
        (SealFault::Encryptor(0, "e".into()), "No usable encryption key in cert"),
        (SealFault::Encryptor(1, "e".into()), "PGP encryptor: e"),
        (SealFault::Writer("e".into()), "PGP writer: e"),
        (SealFault::Write("e".into()), "PGP write: e"),
        (SealFault::Finalize("e".into()), "PGP finalize: e"),
    ];
    for (fault, text) in faults {
        assert_eq!(seal_fault(fault), text);
    }
}

#[test]
fn keyserver_is_asked_once_an_hour() {
    let (_secret, public) = generate_test_keypair("b@x.org");
    let mut cache = KeyCache::new();
    assert!(matches!(cache.lookup_key_bytes("dev@axiom", 0), KeyLookup::Known(None)));
    match cache.lookup_key_bytes("b@x.org", 0) {
        KeyLookup::Ask(url) => assert_eq!(url, "https://keys.openpgp.org/vks/v1/by-email/b%40x.org"),
        KeyLookup::Known(_) => panic!("nothing is known yet"),
    }
    assert_eq!(cache.answered("b@x.org", 0, Some(public.clone())), Some(public.clone()));
    assert!(matches!(cache.lookup_key_bytes("b@x.org", 1), KeyLookup::Known(Some(b)) if b == public));
    assert!(matches!(cache.lookup_key_bytes("b@x.org", KEY_CACHE_TTL), KeyLookup::Ask(_)));

    assert_eq!(cache.answered("c@x.org", 0, Some(b"no certificate".to_vec())), None);
    assert!(matches!(cache.lookup_key_bytes("c@x.org", 1), KeyLookup::Known(None)));
    assert_eq!(cache.answered("d@x.org", 0, None), None);
    assert!(matches!(cache.lookup_key_bytes("d@x.org", 1), KeyLookup::Known(None)));
}

#[test]
fn what_cannot_be_encrypted_goes_out_as_it_is() {
    assert_eq!(encrypted_or_plain(Ok(vec![9]), b"plain"), (vec![9], true));
    assert_eq!(encrypted_or_plain(Err("why".into()), b"plain"), (b"plain".to_vec(), false));
    let (_secret, public) = generate_test_keypair("b@x.org");
    let (sealed, encrypted) = try_encrypt_for_email(Some(public), b"plain");
    assert!(encrypted && is_pgp_encrypted(&sealed));
    assert_eq!(try_encrypt_for_email(Some(b"junk".to_vec()), b"plain"), (b"plain".to_vec(), false));
}
