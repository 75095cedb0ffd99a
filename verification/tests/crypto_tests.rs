use std::collections::HashSet;
use twopass::crypto::{
    base64_decode, base64_encode, decrypt_data, decrypt_legacy_data, derive_legacy_key,
    encrypt_data,
};
use twopass::errors::VaultError;

#[test]
fn encrypt_then_decrypt_returns_the_plaintext() {
    let key = derive_legacy_key("passphrase");
    let msg = b"the quick brown fox".to_vec();
    let (ct, nonce) = encrypt_data(&msg, &key);
    assert_eq!(nonce.len(), 12);
    assert_eq!(ct.len(), msg.len() + 16);
    let back = decrypt_data(&ct, &nonce, &key).unwrap();
    assert_eq!(back, msg);
}

#[test]
fn tampering_and_wrong_keys_fail_closed() {
    let key = derive_legacy_key("passphrase");
    let other = derive_legacy_key("different");
    let msg = b"secret".to_vec();
    let (ct, nonce) = encrypt_data(&msg, &key);
    let mut bad_ct = ct.clone();
    bad_ct[0] ^= 1;
    assert_eq!(
        decrypt_data(&bad_ct, &nonce, &key).unwrap_err(),
        VaultError::CryptoFailure
    );
    let mut bad_nonce = nonce.clone();
    bad_nonce[3] ^= 1;
    assert_eq!(
        decrypt_data(&ct, &bad_nonce, &key).unwrap_err(),
        VaultError::CryptoFailure
    );
    assert_eq!(
        decrypt_data(&ct, &nonce, &other).unwrap_err(),
        VaultError::CryptoFailure
    );
    assert_eq!(
        decrypt_data(&ct, &nonce[..11].to_vec(), &key).unwrap_err(),
        VaultError::InvalidNonce
    );
}

#[test]
fn successive_encryptions_never_reuse_a_nonce() {
    let key = derive_legacy_key("p");
    let msg = b"m".to_vec();
    let mut seen: HashSet<Vec<u8>> = HashSet::new();
    for _ in 0..256 {
        let (_ct, nonce) = encrypt_data(&msg, &key);
        assert!(seen.insert(nonce), "a nonce was reused");
    }
}

#[test]
fn key_derivation_matches_the_memory_hard_function_with_the_fixed_salt() {
    let key = derive_legacy_key("hunter2");
    assert_eq!(key.len(), 32);
    let mut expected = vec![0u8; 32];
    argon2::Argon2::default()
        .hash_password_into(
            b"hunter2",
            b"2pass_fixed_salt_change_in_prod",
            &mut expected,
        )
        .unwrap();
    assert_eq!(key, expected);
    // Deterministic, and sensitive to the passphrase.
    assert_eq!(derive_legacy_key("hunter2"), key);
    assert_ne!(derive_legacy_key("hunter3"), key);
}

#[test]
fn base64_matches_the_standard_alphabet_and_roundtrips() {
    let data = vec![0u8, 1, 2, 250, 251, 252];
    let text = base64_encode(&data);
    assert_eq!(
        text,
        base64::Engine::encode(&base64::engine::general_purpose::STANDARD, &data)
    );
    assert_eq!(base64_decode(&text).unwrap(), data);
    assert!(base64_decode("not base64!!!").is_none());
}

#[test]
fn legacy_blobs_decrypt_end_to_end() {
    let key = derive_legacy_key("master");
    let plaintext = "{\"entries\":[]}";
    let (ct, nonce) = encrypt_data(plaintext.as_bytes(), &key);
    let enc_b64 = base64_encode(&ct);
    let nonce_b64 = base64_encode(&nonce);
    let back = decrypt_legacy_data(&enc_b64, &nonce_b64, &key).unwrap();
    assert_eq!(back, plaintext);
    assert_eq!(
        decrypt_legacy_data("!!!", &nonce_b64, &key).unwrap_err(),
        VaultError::InvalidBase64
    );
    let short_nonce = base64_encode(&nonce[..8]);
    assert_eq!(
        decrypt_legacy_data(&enc_b64, &short_nonce, &key).unwrap_err(),
        VaultError::InvalidNonce
    );
    let mut tampered = ct.clone();
    tampered[5] ^= 0xff;
    let tampered_b64 = base64_encode(&tampered);
    assert_eq!(
        decrypt_legacy_data(&tampered_b64, &nonce_b64, &key).unwrap_err(),
        VaultError::CryptoFailure
    );
}
