use base64::Engine;
use vault_core::crypto::{
    decrypt_vault, derive_key, encrypt_vault, encrypt_with, CryptoError, EncryptedVault,
    MasterPassword,
};

fn pw(s: &str) -> MasterPassword {
    MasterPassword(s.to_string())
}

#[test]
fn round_trip_returns_plaintext() {
    let data = b"{\"version\":\"0.2.0\"}".to_vec();
    let env = encrypt_vault(&data, &pw("correct-horse")).unwrap();
    assert_eq!(env.ciphertext.len(), 12 + data.len() + 16);
    assert_eq!(decrypt_vault(env, &pw("correct-horse")).unwrap(), data);
}

#[test]
fn round_trip_empty_plaintext() {
    let env = encrypt_vault(&[], &pw("p")).unwrap();
    assert_eq!(env.ciphertext.len(), 12 + 16);
    assert_eq!(decrypt_vault(env, &pw("p")).unwrap(), Vec::<u8>::new());
}

#[test]
fn wrong_password_is_rejected() {
    let env = encrypt_vault(b"secret", &pw("correct-horse")).unwrap();
    assert_eq!(decrypt_vault(env, &pw("wrong-password")), Err(CryptoError::Decryption));
}

#[test]
fn flipping_any_bit_is_detected() {
    let env = encrypt_vault(b"tamper me", &pw("pw")).unwrap();
    let last = env.ciphertext.len() - 1;
    // a nonce bit, a ciphertext bit and a tag bit
    for (byte, bit) in [(0, 0), (14, 7), (last, 3)] {
        let mut bad = env.clone();
        bad.ciphertext[byte] ^= 1 << bit;
        assert_eq!(decrypt_vault(bad, &pw("pw")), Err(CryptoError::Decryption));
    }
}

#[test]
fn altered_salt_is_detected() {
    let env = encrypt_vault(b"data", &pw("pw")).unwrap();
    let mut salt = base64::engine::general_purpose::STANDARD.decode(&env.salt).unwrap();
    salt[0] ^= 1;
    let bad = EncryptedVault {
        salt: base64::engine::general_purpose::STANDARD.encode(salt),
        ciphertext: env.ciphertext.clone(),
    };
    assert_eq!(decrypt_vault(bad, &pw("pw")), Err(CryptoError::Decryption));
}

#[test]
fn encryptions_are_fresh() {
    let a = encrypt_vault(b"same", &pw("same")).unwrap();
    let b = encrypt_vault(b"same", &pw("same")).unwrap();
    assert_ne!(a.salt, b.salt);
    assert_ne!(a.ciphertext[..12], b.ciphertext[..12]);
    assert_ne!(a.ciphertext[12..], b.ciphertext[12..]);
}

#[test]
fn envelope_layout() {
    let salt = [7u8; 16];
    let nonce = [9u8; 12];
    let env = encrypt_with(b"abc", &pw("pw"), salt, nonce).unwrap();
    assert_eq!(env.salt, base64::engine::general_purpose::STANDARD.encode(salt));
    assert_eq!(env.salt.len(), 24);
    assert_eq!(&env.ciphertext[..12], &nonce);
    assert_eq!(env.ciphertext.len(), 12 + 3 + 16);
    assert_ne!(&env.ciphertext[12..15], b"abc");
    let again = encrypt_with(b"abc", &pw("pw"), salt, nonce).unwrap();
    assert_eq!(env.ciphertext, again.ciphertext);
    assert_eq!(decrypt_vault(env, &pw("pw")).unwrap(), b"abc".to_vec());
}

#[test]
fn derive_key_is_deterministic() {
    let a = derive_key(&pw("pw"), &[1u8; 16]);
    let b = derive_key(&pw("pw"), &[1u8; 16]);
    let c = derive_key(&pw("pw"), &[2u8; 16]);
    let d = derive_key(&pw("other"), &[1u8; 16]);
    assert_eq!(a.key, b.key);
    assert_ne!(a.key, c.key);
    assert_ne!(a.key, d.key);
    assert_ne!(a.key, [0u8; 32]);
}

#[test]
fn wiping_clears_secrets() {
    let mut k = derive_key(&pw("pw"), &[1u8; 16]);
    k.wipe();
    assert_eq!(k.key, [0u8; 32]);
    let mut p = pw("hunter2");
    p.wipe();
    assert!(p.0.is_empty());
}

#[test]
fn malformed_envelopes_fail() {
    let short = EncryptedVault {
        salt: base64::engine::general_purpose::STANDARD.encode([0u8; 16]),
        ciphertext: vec![1, 2, 3],
    };
    assert_eq!(decrypt_vault(short, &pw("pw")), Err(CryptoError::Decryption));
    let env = encrypt_vault(b"x", &pw("pw")).unwrap();
    let bad_b64 = EncryptedVault { salt: "not base64!".to_string(), ciphertext: env.ciphertext.clone() };
    assert_eq!(decrypt_vault(bad_b64, &pw("pw")), Err(CryptoError::Decryption));
    for len in [12usize, 20, 27] {
        let too_short = EncryptedVault { salt: env.salt.clone(), ciphertext: env.ciphertext[..len].to_vec() };
        assert_eq!(decrypt_vault(too_short, &pw("pw")), Err(CryptoError::Decryption));
    }
    let short_salt = EncryptedVault {
        salt: base64::engine::general_purpose::STANDARD.encode([0u8; 8]),
        ciphertext: env.ciphertext.clone(),
    };
    assert_eq!(decrypt_vault(short_salt, &pw("pw")), Err(CryptoError::Decryption));
}
