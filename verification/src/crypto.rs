//! Authenticated encryption, signatures, hashing and key derivation.
//!
//! The primitives themselves are computed by the RustCrypto and dalek
//! crates. Each call into them is a small trusted function whose result is
//! named by an uninterpreted function of its inputs; what the library builds
//! on them (the layout of a sealed box, which failures are reported, the
//! labels used to derive keys) is verified against those names.
//!
//! A sealed box is `nonce (12 bytes) || ciphertext-with-tag`. Every call of
//! `encrypt` draws a fresh random nonce. Ninety-six random bits are enough
//! only because a key serves one session of modest volume: do not keep one
//! key for billions of messages.

use vstd::prelude::*;
use vstd::string::{StringExecFns, StringSliceAdditionalSpecFns};
use aes_gcm::aead::{Aead, NewAead};
use sha2::Digest;
use ed25519_dalek::{Signer, Verifier};
use crate::error::Error;
use crate::platform::fill_random;
use crate::types::NodeId;
use crate::hexcode::hex_chars;

verus! {

/// Bytes in an AES-256-GCM key.
pub const AES_KEY_SIZE: usize = 32;

/// Bytes in a ChaCha20-Poly1305 key.
pub const CHACHA_KEY_SIZE: usize = 32;

/// Bytes in the nonce that opens a sealed box.
pub const NONCE_SIZE: usize = 12;

/// Bytes in an Ed25519 signature.
pub const SIGNATURE_SIZE: usize = 64;

/// Bytes in the authentication tag that closes a ciphertext.
pub const TAG_SIZE: usize = 16;

/// Longest plaintext, and longest associated data, that AES-GCM accepts.
pub const AES_GCM_MAX_LEN: u64 = 68719476736;

/// ChaCha20-Poly1305 accepts messages shorter than this.
pub const CHACHA_LEN_LIMIT: u64 = 274877906880;

/// Longest output of HKDF-SHA256: 255 blocks of 32 bytes.
pub const HKDF_MAX_LEN: usize = 8160;

/// The AES-256-GCM ciphertext (with its tag) of `plaintext` under `key` and
/// `nonce`, bound to `aad`; `None` where the cipher refuses the input.
pub uninterp spec fn aes_gcm_sealed(key: Seq<u8>, nonce: Seq<u8>, plaintext: Seq<u8>, aad: Seq<u8>) -> Option<Seq<u8>>;

/// The plaintext that AES-256-GCM recovers from `ciphertext`; `None` where
/// the tag does not verify.
pub uninterp spec fn aes_gcm_opened(key: Seq<u8>, nonce: Seq<u8>, ciphertext: Seq<u8>, aad: Seq<u8>) -> Option<Seq<u8>>;

/// The ChaCha20-Poly1305 ciphertext (with its tag) of `plaintext`.
pub uninterp spec fn chacha_sealed(key: Seq<u8>, nonce: Seq<u8>, plaintext: Seq<u8>, aad: Seq<u8>) -> Option<Seq<u8>>;

/// The plaintext that ChaCha20-Poly1305 recovers from `ciphertext`.
pub uninterp spec fn chacha_opened(key: Seq<u8>, nonce: Seq<u8>, ciphertext: Seq<u8>, aad: Seq<u8>) -> Option<Seq<u8>>;

/// AES-GCM takes a plaintext and associated data of these lengths.
pub open spec fn aes_gcm_accepts(plaintext_len: nat, aad_len: nat) -> bool {
    plaintext_len <= AES_GCM_MAX_LEN && aad_len <= AES_GCM_MAX_LEN
}

/// Calls `Aes256Gcm::encrypt` with the message and its associated data. The
/// cipher refuses only a plaintext or associated data longer than 2^36
/// bytes. The ciphertext is the plaintext's length plus a 16-byte tag, and
/// decrypting it under the same key, nonce and associated data gives the
/// plaintext back.
#[verifier::external_body]
fn aes_gcm_seal(key: &[u8; 32], nonce: &[u8], plaintext: &[u8], aad: &[u8]) -> (r: Option<Vec<u8>>)
    requires
        nonce@.len() == 12,
    ensures
        match r {
            Some(c) => aes_gcm_sealed(key@, nonce@, plaintext@, aad@) == Some(c@),
            None => aes_gcm_sealed(key@, nonce@, plaintext@, aad@) is None,
        },
        r is Some <==> aes_gcm_accepts(plaintext@.len(), aad@.len()),
        r matches Some(c) ==> c@.len() == plaintext@.len() + 16,
        r matches Some(c) ==> aes_gcm_opened(key@, nonce@, c@, aad@) == Some(plaintext@),
{
    let cipher = aes_gcm::Aes256Gcm::new(aes_gcm::Key::from_slice(key));
    let payload = aes_gcm::aead::Payload { msg: plaintext, aad };
    cipher.encrypt(aes_gcm::Nonce::from_slice(nonce), payload).ok()
}

/// Calls `Aes256Gcm::decrypt`. It fails when the input is shorter than the
/// tag or the tag does not verify; on success the plaintext is the input
/// without its 16-byte tag.
#[verifier::external_body]
fn aes_gcm_open(key: &[u8; 32], nonce: &[u8], ciphertext: &[u8], aad: &[u8]) -> (r: Option<Vec<u8>>)
    requires
        nonce@.len() == 12,
    ensures
        match r {
            Some(p) => aes_gcm_opened(key@, nonce@, ciphertext@, aad@) == Some(p@),
            None => aes_gcm_opened(key@, nonce@, ciphertext@, aad@) is None,
        },
        r matches Some(p) ==> p@.len() + 16 == ciphertext@.len(),
{
    let cipher = aes_gcm::Aes256Gcm::new(aes_gcm::Key::from_slice(key));
    let payload = aes_gcm::aead::Payload { msg: ciphertext, aad };
    cipher.decrypt(aes_gcm::Nonce::from_slice(nonce), payload).ok()
}

/// Calls `ChaCha20Poly1305::encrypt` with the message and its associated
/// data. The cipher refuses only a plaintext of 64 * (2^32 - 1) bytes or
/// more. The ciphertext is the plaintext's length plus a 16-byte tag, and
/// decrypting it under the same key, nonce and associated data gives the
/// plaintext back.
#[verifier::external_body]
fn chacha_seal(key: &[u8; 32], nonce: &[u8], plaintext: &[u8], aad: &[u8]) -> (r: Option<Vec<u8>>)
    requires
        nonce@.len() == 12,
    ensures
        match r {
            Some(c) => chacha_sealed(key@, nonce@, plaintext@, aad@) == Some(c@),
            None => chacha_sealed(key@, nonce@, plaintext@, aad@) is None,
        },
        r is Some <==> plaintext@.len() < CHACHA_LEN_LIMIT,
        r matches Some(c) ==> c@.len() == plaintext@.len() + 16,
        r matches Some(c) ==> chacha_opened(key@, nonce@, c@, aad@) == Some(plaintext@),
{
    let cipher = chacha20poly1305::ChaCha20Poly1305::new(chacha20poly1305::Key::from_slice(key));
    let payload = aes_gcm::aead::Payload { msg: plaintext, aad };
    cipher.encrypt(chacha20poly1305::Nonce::from_slice(nonce), payload).ok()
}

/// Calls `ChaCha20Poly1305::decrypt`. It fails when the input is shorter
/// than the tag or the tag does not verify; on success the plaintext is the
/// input without its 16-byte tag.
#[verifier::external_body]
fn chacha_open(key: &[u8; 32], nonce: &[u8], ciphertext: &[u8], aad: &[u8]) -> (r: Option<Vec<u8>>)
    requires
        nonce@.len() == 12,
    ensures
        match r {
            Some(p) => chacha_opened(key@, nonce@, ciphertext@, aad@) == Some(p@),
            None => chacha_opened(key@, nonce@, ciphertext@, aad@) is None,
        },
        r matches Some(p) ==> p@.len() + 16 == ciphertext@.len(),
{
    let cipher = chacha20poly1305::ChaCha20Poly1305::new(chacha20poly1305::Key::from_slice(key));
    let payload = aes_gcm::aead::Payload { msg: ciphertext, aad };
    cipher.decrypt(chacha20poly1305::Nonce::from_slice(nonce), payload).ok()
}

fn crypto_error(what: &str) -> (e: Error)
    ensures
        e is Crypto,
        e.detail() == what@,
{
    Error::Crypto(String::from_str(what))
}

/// The twelve bytes of `bytes` as a nonce.
fn nonce_from_bytes(bytes: &Vec<u8>) -> (nonce: [u8; 12])
    requires
        bytes@.len() == 12,
    ensures
        nonce@ == bytes@,
{
    let mut nonce = [0u8; 12];
    let mut i: usize = 0;
    while i < 12
        invariant
            i <= 12,
            bytes@.len() == 12,
            forall|j: int| 0 <= j < i ==> nonce[j] == bytes[j],
        decreases 12 - i,
    {
        nonce[i] = bytes[i];
        i += 1;
    }
    assert(nonce@ =~= bytes@);
    nonce
}

/// Twelve bytes from the random generator. Nothing is claimed of them: they
/// are whatever the generator wrote.
fn fresh_nonce() -> [u8; 12] {
    let mut bytes: Vec<u8> = vec![0u8; 12];
    fill_random(&mut bytes);
    nonce_from_bytes(&bytes)
}

/// The sealed box made of `nonce` and `ciphertext`.
pub fn seal_box(nonce: &[u8], ciphertext: &[u8]) -> (boxed: Vec<u8>)
    ensures
        boxed@ == nonce@ + ciphertext@,
{
    let mut boxed: Vec<u8> = Vec::new();
    crate::codec::append_bytes(&mut boxed, nonce);
    crate::codec::append_bytes(&mut boxed, ciphertext);
    boxed
}

/// Authenticated encryption with AES-256-GCM under one key.
pub struct AesGcmCrypto {
    key: [u8; 32],
}

impl AesGcmCrypto {
    /// The key.
    pub closed spec fn key(&self) -> Seq<u8> {
        self.key@
    }

    /// `boxed` is `plaintext` sealed under this key, some nonce and `aad`.
    pub open spec fn is_sealed(&self, boxed: Seq<u8>, plaintext: Seq<u8>, aad: Seq<u8>) -> bool {
        &&& boxed.len() == NONCE_SIZE + plaintext.len() + TAG_SIZE
        &&& aes_gcm_sealed(self.key(), boxed.subrange(0, 12), plaintext, aad) == Some(
            boxed.subrange(12, boxed.len() as int),
        )
    }

    /// What opening `boxed` under this key and `aad` gives: nothing for a
    /// box too short to hold a nonce, else what the cipher recovers.
    pub open spec fn opened(&self, boxed: Seq<u8>, aad: Seq<u8>) -> Option<Seq<u8>> {
        if boxed.len() < NONCE_SIZE {
            None
        } else {
            aes_gcm_opened(
                self.key(),
                boxed.subrange(0, 12),
                boxed.subrange(12, boxed.len() as int),
                aad,
            )
        }
    }

    pub fn new(key: &[u8; 32]) -> (c: AesGcmCrypto)
        ensures
            c.key() == key@,
    {
        AesGcmCrypto { key: *key }
    }

    /// Seals `plaintext` under a fresh random nonce. It succeeds unless the
    /// plaintext or the associated data is longer than `AES_GCM_MAX_LEN`.
    /// What it returns opens, under the same associated data, to the
    /// plaintext.
    pub fn encrypt(&self, plaintext: &[u8], aad: &[u8]) -> (r: Result<Vec<u8>, Error>)
        ensures
            r is Ok <==> aes_gcm_accepts(plaintext@.len(), aad@.len()),
            r matches Ok(boxed) ==> self.is_sealed(boxed@, plaintext@, aad@),
            r matches Ok(boxed) ==> self.opened(boxed@, aad@) == Some(plaintext@),
            r matches Err(e) ==> e is Crypto,
    {
        let nonce = fresh_nonce();
        self.encrypt_with_nonce(&nonce, plaintext, aad)
    }

    /// Seals `plaintext` under the given nonce.
    pub fn encrypt_with_nonce(&self, nonce: &[u8; 12], plaintext: &[u8], aad: &[u8]) -> (r: Result<
        Vec<u8>,
        Error,
    >)
        ensures
            match r {
                Ok(boxed) => aes_gcm_sealed(self.key(), nonce@, plaintext@, aad@) matches Some(c)
                    && boxed@ == nonce@ + c,
                Err(e) => aes_gcm_sealed(self.key(), nonce@, plaintext@, aad@) is None && e is Crypto,
            },
            r is Ok <==> aes_gcm_accepts(plaintext@.len(), aad@.len()),
            r matches Ok(boxed) ==> self.is_sealed(boxed@, plaintext@, aad@),
            r matches Ok(boxed) ==> self.opened(boxed@, aad@) == Some(plaintext@),
    {
        match aes_gcm_seal(&self.key, nonce.as_slice(), plaintext, aad) {
            Some(ciphertext) => {
                let boxed = seal_box(nonce.as_slice(), ciphertext.as_slice());
                assert(boxed@.subrange(0, 12) =~= nonce@);
                assert(boxed@.subrange(12, boxed@.len() as int) =~= ciphertext@);
                Ok(boxed)
            },
            None => Err(crypto_error("AES-GCM encryption failed")),
        }
    }

    /// Opens a sealed box. It fails with `Crypto` when the box is shorter
    /// than a nonce or when the cipher does not authenticate it.
    pub fn decrypt(&self, ciphertext: &[u8], aad: &[u8]) -> (r: Result<Vec<u8>, Error>)
        ensures
            match r {
                Ok(plaintext) => self.opened(ciphertext@, aad@) == Some(plaintext@),
                Err(e) => self.opened(ciphertext@, aad@) is None && e is Crypto,
            },
            ciphertext@.len() < NONCE_SIZE ==> r is Err,
    {
        if ciphertext.len() < NONCE_SIZE {
            return Err(crypto_error("Ciphertext too short"));
        }
        let nonce = vstd::slice::slice_subrange(ciphertext, 0, NONCE_SIZE);
        let sealed = vstd::slice::slice_subrange(ciphertext, NONCE_SIZE, ciphertext.len());
        match aes_gcm_open(&self.key, nonce, sealed, aad) {
            Some(plaintext) => Ok(plaintext),
            None => Err(crypto_error("AES-GCM decryption failed")),
        }
    }
}

/// Authenticated encryption with ChaCha20-Poly1305 under one key.
pub struct ChaChaCrypto {
    key: [u8; 32],
}

impl ChaChaCrypto {
    /// The key.
    pub closed spec fn key(&self) -> Seq<u8> {
        self.key@
    }

    /// `boxed` is `plaintext` sealed under this key, some nonce and `aad`.
    pub open spec fn is_sealed(&self, boxed: Seq<u8>, plaintext: Seq<u8>, aad: Seq<u8>) -> bool {
        &&& boxed.len() == NONCE_SIZE + plaintext.len() + TAG_SIZE
        &&& chacha_sealed(self.key(), boxed.subrange(0, 12), plaintext, aad) == Some(
            boxed.subrange(12, boxed.len() as int),
        )
    }

    /// What opening `boxed` under this key and `aad` gives: nothing for a
    /// box too short to hold a nonce, else what the cipher recovers.
    pub open spec fn opened(&self, boxed: Seq<u8>, aad: Seq<u8>) -> Option<Seq<u8>> {
        if boxed.len() < NONCE_SIZE {
            None
        } else {
            chacha_opened(
                self.key(),
                boxed.subrange(0, 12),
                boxed.subrange(12, boxed.len() as int),
                aad,
            )
        }
    }

    pub fn new(key: &[u8; 32]) -> (c: ChaChaCrypto)
        ensures
            c.key() == key@,
    {
        ChaChaCrypto { key: *key }
    }

    /// Seals `plaintext` under a fresh random nonce. It succeeds unless the
    /// plaintext reaches `CHACHA_LEN_LIMIT` bytes. What it returns opens,
    /// under the same associated data, to the plaintext.
    pub fn encrypt(&self, plaintext: &[u8], aad: &[u8]) -> (r: Result<Vec<u8>, Error>)
        ensures
            r is Ok <==> plaintext@.len() < CHACHA_LEN_LIMIT,
            r matches Ok(boxed) ==> self.is_sealed(boxed@, plaintext@, aad@),
            r matches Ok(boxed) ==> self.opened(boxed@, aad@) == Some(plaintext@),
            r matches Err(e) ==> e is Crypto,
    {
        let nonce = fresh_nonce();
        self.encrypt_with_nonce(&nonce, plaintext, aad)
    }

    /// Seals `plaintext` under the given nonce.
    pub fn encrypt_with_nonce(&self, nonce: &[u8; 12], plaintext: &[u8], aad: &[u8]) -> (r: Result<
        Vec<u8>,
        Error,
    >)
        ensures
            match r {
                Ok(boxed) => chacha_sealed(self.key(), nonce@, plaintext@, aad@) matches Some(c)
                    && boxed@ == nonce@ + c,
                Err(e) => chacha_sealed(self.key(), nonce@, plaintext@, aad@) is None && e is Crypto,
            },
            r is Ok <==> plaintext@.len() < CHACHA_LEN_LIMIT,
            r matches Ok(boxed) ==> self.is_sealed(boxed@, plaintext@, aad@),
            r matches Ok(boxed) ==> self.opened(boxed@, aad@) == Some(plaintext@),
    {
        match chacha_seal(&self.key, nonce.as_slice(), plaintext, aad) {
            Some(ciphertext) => {
                let boxed = seal_box(nonce.as_slice(), ciphertext.as_slice());
                assert(boxed@.subrange(0, 12) =~= nonce@);
                assert(boxed@.subrange(12, boxed@.len() as int) =~= ciphertext@);
                Ok(boxed)
            },
            None => Err(crypto_error("ChaCha20-Poly1305 encryption failed")),
        }
    }

    /// Opens a sealed box. It fails with `Crypto` when the box is shorter
    /// than a nonce or when the cipher does not authenticate it.
    pub fn decrypt(&self, ciphertext: &[u8], aad: &[u8]) -> (r: Result<Vec<u8>, Error>)
        ensures
            match r {
                Ok(plaintext) => self.opened(ciphertext@, aad@) == Some(plaintext@),
                Err(e) => self.opened(ciphertext@, aad@) is None && e is Crypto,
            },
            ciphertext@.len() < NONCE_SIZE ==> r is Err,
    {
        if ciphertext.len() < NONCE_SIZE {
            return Err(crypto_error("Ciphertext too short"));
        }
        let nonce = vstd::slice::slice_subrange(ciphertext, 0, NONCE_SIZE);
        let sealed = vstd::slice::slice_subrange(ciphertext, NONCE_SIZE, ciphertext.len());
        match chacha_open(&self.key, nonce, sealed, aad) {
            Some(plaintext) => Ok(plaintext),
            None => Err(crypto_error("ChaCha20-Poly1305 decryption failed")),
        }
    }
}


/// The Ed25519 public key that belongs to a 32-byte secret key.
pub uninterp spec fn ed25519_public_key(secret: Seq<u8>) -> Seq<u8>;

/// The Ed25519 signature of `message` under a key pair.
pub uninterp spec fn ed25519_signature(secret: Seq<u8>, public: Seq<u8>, message: Seq<u8>) -> Seq<u8>;

/// Whether `signature` is accepted as a signature of `message` under the
/// public key `public`.
pub uninterp spec fn ed25519_valid(public: Seq<u8>, message: Seq<u8>, signature: Seq<u8>) -> bool;

/// Derives the public key from a secret key with
/// `ed25519_dalek::PublicKey::from(&SecretKey)`. Any 32 bytes are a secret
/// key, so the call cannot fail.
#[verifier::external_body]
fn ed25519_derive_public(secret: &[u8; 32]) -> (public: [u8; 32])
    ensures
        public@ == ed25519_public_key(secret@),
{
    let secret = ed25519_dalek::SecretKey::from_bytes(secret).unwrap();
    ed25519_dalek::PublicKey::from(&secret).to_bytes()
}

/// Signs with `ed25519_dalek::Keypair::sign`, which is deterministic. The
/// key pair is rebuilt from the secret key, so its public half is the one
/// that belongs to it, and the signature it makes verifies under that
/// public key.
#[verifier::external_body]
fn ed25519_sign(secret: &[u8; 32], message: &[u8]) -> (signature: [u8; 64])
    ensures
        signature@ == ed25519_signature(secret@, ed25519_public_key(secret@), message@),
        ed25519_valid(ed25519_public_key(secret@), message@, signature@),
{
    let secret = ed25519_dalek::SecretKey::from_bytes(secret).unwrap();
    let public = ed25519_dalek::PublicKey::from(&secret);
    ed25519_dalek::Keypair { secret, public }.sign(message).to_bytes()
}

/// Verifies with `ed25519_dalek::PublicKey::verify`. Bytes that are no
/// public key, or no well-formed signature, verify nothing.
#[verifier::external_body]
fn ed25519_check(public: &[u8; 32], message: &[u8], signature: &[u8; 64]) -> (valid: bool)
    ensures
        valid == ed25519_valid(public@, message@, signature@),
{
    match (
        ed25519_dalek::PublicKey::from_bytes(public),
        ed25519_dalek::Signature::from_bytes(signature),
    ) {
        (Ok(public), Ok(signature)) => public.verify(message, &signature).is_ok(),
        _ => false,
    }
}

/// An Ed25519 key pair that signs on behalf of a node. The public half is
/// always the one that belongs to the secret half.
pub struct Ed25519Signer {
    secret: [u8; 32],
    public: [u8; 32],
}

impl Ed25519Signer {
    /// The secret key.
    pub closed spec fn secret(&self) -> Seq<u8> {
        self.secret@
    }

    /// The public key.
    pub closed spec fn public(&self) -> Seq<u8> {
        self.public@
    }

    #[verifier::type_invariant]
    spec fn consistent(&self) -> bool {
        self.public@ == ed25519_public_key(self.secret@)
    }

    /// A signer with a fresh random secret key.
    pub fn new() -> (s: Ed25519Signer)
        ensures
            s.public() == ed25519_public_key(s.secret()),
    {
        let mut secret: Vec<u8> = vec![0u8; 32];
        fill_random(&mut secret);
        let mut key = [0u8; 32];
        let mut i: usize = 0;
        while i < 32
            invariant
                i <= 32,
                secret.len() == 32,
            decreases 32 - i,
        {
            key[i] = secret[i];
            i += 1;
        }
        Ed25519Signer::from_secret(&key)
    }

    /// The signer for a given secret key.
    pub fn from_secret(secret: &[u8; 32]) -> (s: Ed25519Signer)
        ensures
            s.secret() == secret@,
            s.public() == ed25519_public_key(secret@),
    {
        let public = ed25519_derive_public(secret);
        Ed25519Signer { secret: *secret, public }
    }

    /// The signer for a key pair given as its two halves. A public half
    /// that does not belong to the secret half is refused with `Crypto`.
    pub fn from_keypair(secret: &[u8; 32], public: &[u8; 32]) -> (r: Result<Ed25519Signer, Error>)
        ensures
            match r {
                Ok(s) => s.secret() == secret@ && s.public() == public@ && public@
                    == ed25519_public_key(secret@),
                Err(e) => e is Crypto && public@ != ed25519_public_key(secret@),
            },
    {
        let derived = ed25519_derive_public(secret);
        let mut i: usize = 0;
        while i < 32
            invariant
                i <= 32,
                derived@ == ed25519_public_key(secret@),
                forall|j: int| 0 <= j < i ==> derived[j] == public[j],
            decreases 32 - i,
        {
            if derived[i] != public[i] {
                assert(derived@[i as int] != public@[i as int]);
                return Err(crypto_error("public key does not belong to the secret key"));
            }
            i += 1;
        }
        assert(derived@ =~= public@);
        Ok(Ed25519Signer { secret: *secret, public: *public })
    }

    /// The public key's bytes.
    pub fn public_key(&self) -> (key: &[u8; 32])
        ensures
            key@ == self.public(),
    {
        &self.public
    }

    /// Signs `message`. The signature is a function of the key and the
    /// message, and `verify` accepts it for that message.
    pub fn sign(&self, message: &[u8]) -> (signature: [u8; 64])
        ensures
            signature@ == ed25519_signature(self.secret(), self.public(), message@),
            ed25519_valid(self.public(), message@, signature@),
    {
        proof {
            use_type_invariant(self);
        }
        ed25519_sign(&self.secret, message)
    }

    /// Checks `signature` against `message` under this signer's public key:
    /// `Ok` when it is valid, `Crypto` when it is not.
    pub fn verify(&self, message: &[u8], signature: &[u8; 64]) -> (r: Result<(), Error>)
        ensures
            r is Ok <==> ed25519_valid(self.public(), message@, signature@),
            r matches Err(e) ==> e is Crypto,
    {
        if ed25519_check(&self.public, message, signature) {
            Ok(())
        } else {
            Err(crypto_error("Ed25519 verification failed"))
        }
    }
}

/// Checks `signature` against `message` under any public key.
pub fn verify_signature(public: &[u8; 32], message: &[u8], signature: &[u8; 64]) -> (r: Result<
    (),
    Error,
>)
    ensures
        r is Ok <==> ed25519_valid(public@, message@, signature@),
        r matches Err(e) ==> e is Crypto,
{
    if ed25519_check(public, message, signature) {
        Ok(())
    } else {
        Err(crypto_error("Ed25519 verification failed"))
    }
}

/// The first `len` bytes of the HKDF-SHA256 output for the given input key
/// material, salt and info.
pub uninterp spec fn hkdf_sha256_okm(ikm: Seq<u8>, salt: Seq<u8>, info: Seq<u8>, len: nat) -> Seq<u8>;

/// The SHA-256 digest of `data`.
pub uninterp spec fn sha256_digest(data: Seq<u8>) -> Seq<u8>;

/// The SHA-512 digest of `data`.
pub uninterp spec fn sha512_digest(data: Seq<u8>) -> Seq<u8>;

/// Runs `Hkdf::<Sha256>::new(Some(salt), key)` and `expand(info, ..)` into a
/// buffer of `output_len` bytes. Expansion fails only for more than 255
/// blocks of output, which the precondition rules out.
#[verifier::external_body]
fn hkdf_expand(key: &[u8], salt: &[u8], info: &[u8], output_len: usize) -> (out: Option<Vec<u8>>)
    requires
        output_len <= HKDF_MAX_LEN,
    ensures
        out is Some,
        out matches Some(bytes) ==> bytes@ == hkdf_sha256_okm(key@, salt@, info@, output_len as nat),
        out matches Some(bytes) ==> bytes@.len() == output_len,
{
    let mut output = vec![0u8; output_len];
    let expanded = hkdf::Hkdf::<sha2::Sha256>::new(Some(salt), key).expand(info, &mut output);
    expanded.ok().map(|_| output)
}

/// HKDF with SHA-256 (extract, then expand). It fails with `Crypto` exactly
/// when more than `HKDF_MAX_LEN` bytes are asked for. Equal inputs give
/// equal outputs.
pub fn hkdf_sha256(key: &[u8], salt: &[u8], info: &[u8], output_len: usize) -> (r: Result<
    Vec<u8>,
    Error,
>)
    ensures
        match r {
            Ok(okm) => output_len <= HKDF_MAX_LEN && okm@ == hkdf_sha256_okm(
                key@,
                salt@,
                info@,
                output_len as nat,
            ) && okm@.len() == output_len,
            Err(e) => output_len > HKDF_MAX_LEN && e is Crypto,
        },
{
    if output_len > HKDF_MAX_LEN {
        return Err(crypto_error("HKDF expansion failed"));
    }
    match hkdf_expand(key, salt, info, output_len) {
        Some(okm) => Ok(okm),
        None => Err(crypto_error("HKDF expansion failed")),
    }
}

/// Hashes with `sha2::Sha256`: feeds `data` to a fresh hasher and takes
/// the 32-byte digest.
#[verifier::external_body]
fn sha256_of(data: &[u8]) -> (digest: [u8; 32])
    ensures
        digest@ == sha256_digest(data@),
{
    let mut hasher = sha2::Sha256::new();
    hasher.update(data);
    hasher.finalize().into()
}

/// Hashes with `sha2::Sha512`: feeds `data` to a fresh hasher and takes
/// the 64-byte digest.
#[verifier::external_body]
fn sha512_of(data: &[u8]) -> (digest: [u8; 64])
    ensures
        digest@ == sha512_digest(data@),
{
    let mut hasher = sha2::Sha512::new();
    hasher.update(data);
    hasher.finalize().into()
}

/// The SHA-256 digest of `data`.
pub fn sha256(data: &[u8]) -> (digest: [u8; 32])
    ensures
        digest@ == sha256_digest(data@),
{
    sha256_of(data)
}

/// The SHA-512 digest of `data`.
pub fn sha512(data: &[u8]) -> (digest: [u8; 64])
    ensures
        digest@ == sha512_digest(data@),
{
    sha512_of(data)
}

/// `len` bytes from the random generator.
pub fn random_bytes(len: usize) -> (bytes: Vec<u8>)
    ensures
        bytes@.len() == len,
{
    let mut bytes: Vec<u8> = vec![0u8; len];
    fill_random(&mut bytes);
    bytes
}


/// The 32 bytes of `bytes` as a key.
fn key_from_bytes(bytes: &Vec<u8>) -> (key: [u8; 32])
    requires
        bytes@.len() == 32,
    ensures
        key@ == bytes@,
{
    let mut key = [0u8; 32];
    let mut i: usize = 0;
    while i < 32
        invariant
            i <= 32,
            bytes@.len() == 32,
            forall|j: int| 0 <= j < i ==> key[j] == bytes[j],
        decreases 32 - i,
    {
        key[i] = bytes[i];
        i += 1;
    }
    assert(key@ =~= bytes@);
    key
}

/// The key-derivation label made of a fixed prefix and a node's canonical
/// text, as bytes.
pub open spec fn mesh_info(prefix: Seq<char>, node_id: Seq<u8>) -> Seq<u8> {
    vstd::utf8::encode_utf8(prefix + hex_chars(node_id))
}

/// The key-derivation label made of a fixed prefix and the canonical texts
/// of two peers with a colon between them, as bytes.
pub open spec fn session_info(prefix: Seq<char>, peer1: Seq<u8>, peer2: Seq<u8>) -> Seq<u8> {
    vstd::utf8::encode_utf8(prefix + hex_chars(peer1) + ":"@ + hex_chars(peer2))
}

/// The 32-byte key that HKDF-SHA256 derives from `secret` with an empty salt
/// and the given label.
pub open spec fn derived_key(secret: Seq<u8>, info: Seq<u8>) -> Seq<u8> {
    hkdf_sha256_okm(secret, Seq::<u8>::empty(), info, 32)
}

fn derive_key(secret: &[u8], info: &str) -> (r: Result<[u8; 32], Error>)
    ensures
        r matches Ok(key) && key@ == derived_key(secret@, info.spec_bytes()),
{
    let salt: Vec<u8> = Vec::new();
    match hkdf_sha256(secret, salt.as_slice(), info.as_bytes(), 32) {
        Ok(okm) => {
            assert(salt@ =~= Seq::<u8>::empty());
            Ok(key_from_bytes(&okm))
        },
        Err(e) => Err(e),
    }
}

/// Derives a node's encryption key and authentication key from a master
/// key. The labels are `mesh-encryption:<hex(node_id)>` and
/// `mesh-auth:<hex(node_id)>`; the salt is empty. It always succeeds.
pub fn derive_mesh_keys(master_key: &[u8], node_id: &NodeId) -> (r: Result<
    ([u8; 32], [u8; 32]),
    Error,
>)
    ensures
        r matches Ok((enc_key, auth_key)) && enc_key@ == derived_key(
            master_key@,
            mesh_info("mesh-encryption:"@, node_id@),
        ) && auth_key@ == derived_key(master_key@, mesh_info("mesh-auth:"@, node_id@)),
{
    let node_id_hex = node_id.to_hex();
    let context_enc = String::from_str("mesh-encryption:").concat(node_id_hex.as_str());
    let context_auth = String::from_str("mesh-auth:").concat(node_id_hex.as_str());
    let enc_key = match derive_key(master_key, context_enc.as_str()) {
        Ok(key) => key,
        Err(e) => { return Err(e); },
    };
    let auth_key = match derive_key(master_key, context_auth.as_str()) {
        Ok(key) => key,
        Err(e) => { return Err(e); },
    };
    Ok((enc_key, auth_key))
}

/// Derives the two keys of a session between two peers from their shared
/// secret. The labels are `session-key-1:<hex(peer1)>:<hex(peer2)>` and
/// `session-key-2:<hex(peer1)>:<hex(peer2)>`; the salt is empty. It always
/// succeeds.
pub fn derive_session_keys(shared_secret: &[u8], peer_id1: &NodeId, peer_id2: &NodeId) -> (r:
    Result<([u8; 32], [u8; 32]), Error>)
    ensures
        r matches Ok((key1, key2)) && key1@ == derived_key(
            shared_secret@,
            session_info("session-key-1:"@, peer_id1@, peer_id2@),
        ) && key2@ == derived_key(
            shared_secret@,
            session_info("session-key-2:"@, peer_id1@, peer_id2@),
        ),
{
    let id1_hex = peer_id1.to_hex();
    let id2_hex = peer_id2.to_hex();
    let context1 = String::from_str("session-key-1:").concat(id1_hex.as_str()).concat(":").concat(
        id2_hex.as_str(),
    );
    let context2 = String::from_str("session-key-2:").concat(id1_hex.as_str()).concat(":").concat(
        id2_hex.as_str(),
    );
    let key1 = match derive_key(shared_secret, context1.as_str()) {
        Ok(key) => key,
        Err(e) => { return Err(e); },
    };
    let key2 = match derive_key(shared_secret, context2.as_str()) {
        Ok(key) => key,
        Err(e) => { return Err(e); },
    };
    Ok((key1, key2))
}

/// Key derivation is a function: equal inputs give equal keys.
pub proof fn lemma_derivation_is_deterministic(
    ikm1: Seq<u8>,
    salt1: Seq<u8>,
    info1: Seq<u8>,
    len1: nat,
    ikm2: Seq<u8>,
    salt2: Seq<u8>,
    info2: Seq<u8>,
    len2: nat,
)
    requires
        ikm1 == ikm2,
        salt1 == salt2,
        info1 == info2,
        len1 == len2,
    ensures
        hkdf_sha256_okm(ikm1, salt1, info1, len1) == hkdf_sha256_okm(ikm2, salt2, info2, len2),
{
}

} // verus!
