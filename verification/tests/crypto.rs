use katya_mesh::crypto::{
    derive_mesh_keys, derive_session_keys, hkdf_sha256, random_bytes, seal_box,
    sha256, sha512, verify_signature, AesGcmCrypto, ChaChaCrypto, Ed25519Signer, AES_KEY_SIZE,
    CHACHA_KEY_SIZE, HKDF_MAX_LEN, NONCE_SIZE, SIGNATURE_SIZE, TAG_SIZE,
};
use katya_mesh::error::Error;
use katya_mesh::types::NodeId;

fn unhex(text: &str) -> Vec<u8> {
    hex::decode(text).unwrap()
}

#[test]
fn test_aes_gcm_encrypt_decrypt() {
    let key = [0u8; 32];
    let crypto = AesGcmCrypto::new(&key);
    let plaintext = b"Hello, world!";
    let aad = b"additional data";

    let ciphertext = crypto.encrypt(plaintext, aad).unwrap();
    let decrypted = crypto.decrypt(&ciphertext, aad).unwrap();

    assert_eq!(plaintext, decrypted.as_slice());
}

#[test]
fn test_chacha_encrypt_decrypt() {
    let key = [0u8; 32];
    let crypto = ChaChaCrypto::new(&key);
    let plaintext = b"Hello, world!";
    let aad = b"additional data";

    let ciphertext = crypto.encrypt(plaintext, aad).unwrap();
    let decrypted = crypto.decrypt(&ciphertext, aad).unwrap();

    assert_eq!(plaintext, decrypted.as_slice());
}

#[test]
fn test_ed25519_sign_verify() {
    let signer = Ed25519Signer::new();
    let message = b"Hello, world!";
    let signature = signer.sign(message);

    assert!(signer.verify(message, &signature).is_ok());
    assert!(signer.verify(b"Wrong message", &signature).is_err());
}

#[test]
fn test_sha256() {
    let data = b"Hello, world!";
    let hash = sha256(data);
    assert_eq!(hash.len(), 32);
}

#[test]
fn test_hkdf() {
    let key = b"secret key";
    let salt = b"salt";
    let info = b"info";
    let output = hkdf_sha256(key, salt, info, 32).unwrap();
    assert_eq!(output.len(), 32);
}

#[test]
fn sizes() {
    assert_eq!(AES_KEY_SIZE, 32);
    assert_eq!(CHACHA_KEY_SIZE, 32);
    assert_eq!(NONCE_SIZE, 12);
    assert_eq!(SIGNATURE_SIZE, 64);
    assert_eq!(TAG_SIZE, 16);
    assert_eq!(HKDF_MAX_LEN, 255 * 32);
}

#[test]
fn aes_gcm_known_answers() {
    let crypto = AesGcmCrypto::new(&[0u8; 32]);
    let nonce = [0u8; 12];
    let boxed = crypto.encrypt_with_nonce(&nonce, &[], &[]).unwrap();
    let mut expected = nonce.to_vec();
    expected.extend_from_slice(&unhex("530f8afbc74536b9a963b4f1c4cb738b"));
    assert_eq!(boxed, expected);
    let boxed = crypto.encrypt_with_nonce(&nonce, &[0u8; 16], &[]).unwrap();
    let mut expected = nonce.to_vec();
    expected.extend_from_slice(&unhex(
        "cea7403d4d606b6e074ec5d3baf39d18d0d1c8a799996bf0265b98b5d48ab919",
    ));
    assert_eq!(boxed, expected);
    assert_eq!(crypto.decrypt(&boxed, &[]).unwrap(), vec![0u8; 16]);
}

#[test]
fn sealed_box_layout() {
    let crypto = AesGcmCrypto::new(&[7u8; 32]);
    let boxed = crypto.encrypt(b"hello", b"").unwrap();
    assert_eq!(boxed.len(), 12 + 5 + 16);
    assert_ne!(boxed[12..17], *b"hello");
    let nonce = [9u8; 12];
    let fixed = crypto.encrypt_with_nonce(&nonce, b"hello", b"").unwrap();
    assert_eq!(fixed[..12], nonce);
    assert_eq!(fixed, crypto.encrypt_with_nonce(&nonce, b"hello", b"").unwrap());
    let chacha = ChaChaCrypto::new(&[7u8; 32]);
    let boxed = chacha.encrypt(b"hello", b"").unwrap();
    assert_eq!(boxed.len(), 12 + 5 + 16);
    assert_ne!(boxed[12..17], *b"hello");
    let fixed = chacha.encrypt_with_nonce(&nonce, b"hello", b"").unwrap();
    assert_eq!(fixed[..12], nonce);
    assert_eq!(seal_box(&[1, 2], &[3]), vec![1, 2, 3]);
}

#[test]
fn each_encryption_draws_a_fresh_nonce() {
    let crypto = AesGcmCrypto::new(&[1u8; 32]);
    let a = crypto.encrypt(b"same", b"").unwrap();
    let b = crypto.encrypt(b"same", b"").unwrap();
    assert_ne!(a[..12], b[..12]);
    assert_ne!(a, b);
    let chacha = ChaChaCrypto::new(&[1u8; 32]);
    let a = chacha.encrypt(b"same", b"").unwrap();
    let b = chacha.encrypt(b"same", b"").unwrap();
    assert_ne!(a[..12], b[..12]);
}

#[test]
fn aead_round_trip_with_empty_and_long_inputs() {
    let aes = AesGcmCrypto::new(&[3u8; 32]);
    let chacha = ChaChaCrypto::new(&[3u8; 32]);
    let long = vec![0x5Au8; 10_000];
    for plaintext in [&b""[..], &b"x"[..], &long[..]] {
        for aad in [&b""[..], &b"header"[..]] {
            let boxed = aes.encrypt(plaintext, aad).unwrap();
            assert_eq!(aes.decrypt(&boxed, aad).unwrap(), plaintext);
            let boxed = chacha.encrypt(plaintext, aad).unwrap();
            assert_eq!(chacha.decrypt(&boxed, aad).unwrap(), plaintext);
        }
    }
}

#[test]
fn aes_gcm_tamper_is_refused() {
    let crypto = AesGcmCrypto::new(&[0u8; 32]);
    let mut c = crypto.encrypt(b"hello", b"").unwrap();
    let last = c.len() - 1;
    c[last] ^= 0x01;
    assert!(matches!(crypto.decrypt(&c, b""), Err(Error::Crypto(_))));
}

#[test]
fn tampering_anywhere_is_refused() {
    let aes = AesGcmCrypto::new(&[4u8; 32]);
    let chacha = ChaChaCrypto::new(&[4u8; 32]);
    let a = aes.encrypt(b"hello", b"aad").unwrap();
    let c = chacha.encrypt(b"hello", b"aad").unwrap();
    for i in 0..a.len() {
        let mut bad = a.clone();
        bad[i] ^= 0x80;
        assert!(matches!(aes.decrypt(&bad, b"aad"), Err(Error::Crypto(_))));
        let mut bad = c.clone();
        bad[i] ^= 0x80;
        assert!(matches!(chacha.decrypt(&bad, b"aad"), Err(Error::Crypto(_))));
    }
    assert!(matches!(aes.decrypt(&a, b"other"), Err(Error::Crypto(_))));
    assert!(matches!(chacha.decrypt(&c, b"other"), Err(Error::Crypto(_))));
    let other = AesGcmCrypto::new(&[5u8; 32]);
    assert!(matches!(other.decrypt(&a, b"aad"), Err(Error::Crypto(_))));
}

#[test]
fn short_ciphertext_is_refused() {
    let aes = AesGcmCrypto::new(&[0u8; 32]);
    let chacha = ChaChaCrypto::new(&[0u8; 32]);
    for len in 0..28 {
        let bytes = vec![0u8; len];
        assert!(matches!(aes.decrypt(&bytes, b""), Err(Error::Crypto(_))));
        assert!(matches!(chacha.decrypt(&bytes, b""), Err(Error::Crypto(_))));
    }
    match aes.decrypt(&[0u8; 11], b"") {
        Err(e) => assert_eq!(e.to_string(), "Crypto error: Ciphertext too short"),
        Ok(_) => panic!("a box shorter than a nonce was opened"),
    }
}

#[test]
fn ed25519_known_answer() {
    let secret: [u8; 32] = unhex("9d61b19deffd5a60ba844af492ec2cc44449c5697b326919703bac031cae7f60")
        .try_into()
        .unwrap();
    let signer = Ed25519Signer::from_secret(&secret);
    assert_eq!(
        signer.public_key().to_vec(),
        unhex("d75a980182b10ab7d54bfed3c964073a0ee172f3daa62325af021a68f707511a")
    );
    let signature = signer.sign(b"");
    assert_eq!(
        signature.to_vec(),
        unhex(
            "e5564300c360ac729086e2cc806e828a84877f1eb8e5d974d873e06522490155\
             5fb8821590a33bacc61e39701cf9b46bd25bf5f0595bbe24655141438e7a100b"
        )
    );
    assert!(signer.verify(b"", &signature).is_ok());
    assert!(verify_signature(signer.public_key(), b"", &signature).is_ok());
    assert!(matches!(signer.verify(b"x", &signature), Err(Error::Crypto(_))));
}

#[test]
fn signatures_are_deterministic_and_bound_to_the_key() {
    let a = Ed25519Signer::new();
    let b = Ed25519Signer::new();
    assert_ne!(a.public_key(), b.public_key());
    let sig = a.sign(b"message");
    assert_eq!(sig, a.sign(b"message"));
    assert_ne!(sig, a.sign(b"messagf"));
    assert!(b.verify(b"message", &sig).is_err());
    let mut bad = sig;
    bad[0] ^= 1;
    assert!(a.verify(b"message", &bad).is_err());
    assert!(verify_signature(&[0xFFu8; 32], b"message", &sig).is_err());
    assert!(a.verify(b"message", &[0xFFu8; 64]).is_err());
}

#[test]
fn from_keypair_checks_that_the_halves_belong_together() {
    let a = Ed25519Signer::from_secret(&[1u8; 32]);
    let public = *a.public_key();
    let again = Ed25519Signer::from_keypair(&[1u8; 32], &public).unwrap();
    assert_eq!(again.public_key(), a.public_key());
    assert_eq!(again.sign(b"m"), a.sign(b"m"));
    assert!(matches!(
        Ed25519Signer::from_keypair(&[2u8; 32], &public),
        Err(Error::Crypto(_))
    ));
}

#[test]
fn sha_known_answers() {
    assert_eq!(
        sha256(b"abc").to_vec(),
        unhex("ba7816bf8f01cfea414140de5dae2223b00361a396177a9cb410ff61f20015ad")
    );
    assert_eq!(
        sha256(b"").to_vec(),
        unhex("e3b0c44298fc1c149afbf4c8996fb92427ae41e4649b934ca495991b7852b855")
    );
    assert_eq!(
        sha512(b"abc").to_vec(),
        unhex(
            "ddaf35a193617abacc417349ae20413112e6fa4e89a97ea20a9eeee64b55d39a\
             2192992a274fc1a836ba3c23a3feebbd454d4423643ce80e2a9ac94fa54ca49f"
        )
    );
    assert_eq!(sha512(b"").len(), 64);
}

#[test]
fn hkdf_known_answer() {
    let ikm = [0x0bu8; 22];
    let salt = unhex("000102030405060708090a0b0c");
    let info = unhex("f0f1f2f3f4f5f6f7f8f9");
    let okm = hkdf_sha256(&ikm, &salt, &info, 42).unwrap();
    assert_eq!(
        okm,
        unhex(
            "3cb25f25faacd57a90434f64d0362f2a2d2d0a90cf1a5a4c5db02d56ecc4c5bf\
             34007208d5b887185865"
        )
    );
}

#[test]
fn hkdf_is_deterministic_and_bounded() {
    let a = hkdf_sha256(b"key", b"salt", b"info", 64).unwrap();
    let b = hkdf_sha256(b"key", b"salt", b"info", 64).unwrap();
    assert_eq!(a, b);
    assert_ne!(a, hkdf_sha256(b"key", b"salt", b"info2", 64).unwrap());
    assert_eq!(a[..32], hkdf_sha256(b"key", b"salt", b"info", 32).unwrap()[..]);
    assert_eq!(hkdf_sha256(b"key", b"", b"", 0).unwrap().len(), 0);
    assert_eq!(hkdf_sha256(b"key", b"", b"", 8160).unwrap().len(), 8160);
    assert!(matches!(hkdf_sha256(b"key", b"", b"", 8161), Err(Error::Crypto(_))));
}

#[test]
fn mesh_keys_use_the_documented_labels() {
    let id = NodeId::from_bytes([0x11; 32]);
    let (enc, auth) = derive_mesh_keys(b"master", &id).unwrap();
    let hex_id = "11".repeat(32);
    let enc_info = format!("mesh-encryption:{}", hex_id);
    let auth_info = format!("mesh-auth:{}", hex_id);
    assert_eq!(enc.to_vec(), hkdf_sha256(b"master", b"", enc_info.as_bytes(), 32).unwrap());
    assert_eq!(auth.to_vec(), hkdf_sha256(b"master", b"", auth_info.as_bytes(), 32).unwrap());
    assert_ne!(enc, auth);
    assert_eq!(derive_mesh_keys(b"master", &id).unwrap(), (enc, auth));
}

#[test]
fn session_keys_use_the_documented_labels() {
    let a = NodeId::from_bytes([0xAB; 32]);
    let b = NodeId::from_bytes([0xCD; 32]);
    let (k1, k2) = derive_session_keys(b"shared", &a, &b).unwrap();
    let info1 = format!("session-key-1:{}:{}", "ab".repeat(32), "cd".repeat(32));
    let info2 = format!("session-key-2:{}:{}", "ab".repeat(32), "cd".repeat(32));
    assert_eq!(k1.to_vec(), hkdf_sha256(b"shared", b"", info1.as_bytes(), 32).unwrap());
    assert_eq!(k2.to_vec(), hkdf_sha256(b"shared", b"", info2.as_bytes(), 32).unwrap());
    let (r1, _) = derive_session_keys(b"shared", &b, &a).unwrap();
    assert_ne!(k1, r1);
}

#[test]
fn random_bytes_have_the_asked_length() {
    assert_eq!(random_bytes(0).len(), 0);
    assert_eq!(random_bytes(33).len(), 33);
    assert_ne!(random_bytes(32), random_bytes(32));
    assert_ne!(random_bytes(32), vec![0u8; 32]);
}
