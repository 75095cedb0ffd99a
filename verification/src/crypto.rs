//! Key derivation and authenticated encryption.  A fresh 96-bit nonce is
//! drawn for every encryption; decryption fails closed: it yields the
//! plaintext exactly when the ciphertext is authentic under the key and
//! nonce, and one generic failure otherwise.

use vstd::prelude::*;
use vstd::string::*;
use vstd::utf8::{decode_utf8, valid_utf8};
use crate::errors::VaultError;

verus! {

/// What the memory-hard derivation returns for a password and salt; a
/// function of the two alone.
pub uninterp spec fn argon2_of(pwd: Seq<u8>, salt: Seq<u8>) -> Seq<u8>;

/// The ciphertext-with-tag the cipher produces for a key, nonce and
/// plaintext; a function of the three alone.
pub uninterp spec fn aead_enc(key: Seq<u8>, nonce: Seq<u8>, pt: Seq<u8>) -> Seq<u8>;

/// What authenticated decryption yields for a key, nonce and ciphertext;
/// a function of the three alone, absent exactly when authentication
/// fails.
pub uninterp spec fn aead_dec(key: Seq<u8>, nonce: Seq<u8>, ct: Seq<u8>) -> Option<Seq<u8>>;

/// The standard Base64 text of a byte sequence.
pub uninterp spec fn base64_of(b: Seq<u8>) -> Seq<char>;

/// What standard Base64 decoding yields; absent exactly on text that is
/// not a canonical encoding.
pub uninterp spec fn base64_decoded(s: Seq<char>) -> Option<Seq<u8>>;

/// Relies on argon2::Argon2::default().hash_password_into with the
/// default parameters: a 32-byte key determined by the password and salt
/// alone.  The password and salt bounds keep the call inside the lengths
/// the crate accepts, so it cannot fail.
#[verifier::external_body]
fn argon2_derive_str(pwd: &str, salt: &str) -> (r: Vec<u8>)
    requires
        8 <= salt@.len() <= 0x3fff_ffff,
        pwd@.len() <= 0x3fff_ffff,
    ensures
        r@ == argon2_of(vstd::utf8::encode_utf8(pwd@), vstd::utf8::encode_utf8(salt@)),
        r@.len() == 32,
{
    let mut key = vec![0u8; 32];
    argon2::Argon2::default()
        .hash_password_into(pwd.as_bytes(), salt.as_bytes(), &mut key)
        .expect("the argon2 input bounds hold");
    key
}

/// Relies on aes_gcm::Aes256Gcm (AES-256-GCM through the Aead trait):
/// sealing appends the 16-byte tag, is a function of key, nonce and
/// plaintext alone, cannot fail under the stated length bounds, and what
/// it seals, decryption opens again.
#[verifier::external_body]
fn aes_gcm_seal(key: &[u8], nonce: &[u8], pt: &[u8]) -> (r: Vec<u8>)
    requires
        key@.len() == 32,
        nonce@.len() == 12,
        pt@.len() <= 0x10_0000_0000,
    ensures
        r@ == aead_enc(key@, nonce@, pt@),
        r@.len() == pt@.len() + 16,
        aead_dec(key@, nonce@, r@) == Option::Some(pt@),
{
    let cipher = <aes_gcm::Aes256Gcm as aes_gcm::aead::KeyInit>::new_from_slice(key)
        .expect("the key is 32 bytes");
    aes_gcm::aead::Aead::encrypt(&cipher, aes_gcm::Nonce::from_slice(nonce), pt)
        .expect("the plaintext is within the cipher's bounds")
}

/// Relies on aes_gcm::Aes256Gcm decryption: it yields a plaintext exactly
/// when the ciphertext authenticates, and then only the plaintext whose
/// sealing the ciphertext is.
#[verifier::external_body]
fn aes_gcm_open(key: &[u8], nonce: &[u8], ct: &[u8]) -> (r: Option<Vec<u8>>)
    requires
        key@.len() == 32,
        nonce@.len() == 12,
    ensures
        r matches Some(pt) ==> aead_dec(key@, nonce@, ct@) == Option::Some(pt@) && ct@
            == aead_enc(key@, nonce@, pt@),
        r is None ==> aead_dec(key@, nonce@, ct@) is None,
{
    let cipher = <aes_gcm::Aes256Gcm as aes_gcm::aead::KeyInit>::new_from_slice(key)
        .expect("the key is 32 bytes");
    aes_gcm::aead::Aead::decrypt(&cipher, aes_gcm::Nonce::from_slice(nonce), ct).ok()
}

/// Relies on rand::thread_rng().fill_bytes: a buffer of the asked length
/// filled with random bytes.  Nothing can be promised of the values.
#[verifier::external_body]
pub fn random_bytes(n: usize) -> (r: Vec<u8>)
    ensures
        r@.len() == n,
{
    let mut buf = vec![0u8; n];
    rand::RngCore::fill_bytes(&mut rand::thread_rng(), &mut buf);
    buf
}

/// Relies on base64::engine::general_purpose::STANDARD.encode, and on
/// decode inverting encode.  Inputs anywhere near the crate's encoded
/// length limit are excluded.
#[verifier::external_body]
pub fn base64_encode(b: &[u8]) -> (r: String)
    requires
        b@.len() <= 0x0fff_ffff,
    ensures
        r@ == base64_of(b@),
        base64_decoded(r@) == Option::Some(b@),
{
    base64::Engine::encode(&base64::engine::general_purpose::STANDARD, b)
}

/// Relies on base64::engine::general_purpose::STANDARD.decode: strict
/// standard-alphabet decoding with required canonical padding; what it
/// yields depends on the text alone.
#[verifier::external_body]
pub fn base64_decode(s: &str) -> (r: Option<Vec<u8>>)
    ensures
        r matches Some(b) ==> base64_decoded(s@) == Option::Some(b@),
        r is None ==> base64_decoded(s@) is None,
{
    base64::Engine::decode(&base64::engine::general_purpose::STANDARD, s).ok()
}

/// Relies on String::from_utf8: succeeds exactly on valid UTF-8, and then
/// returns the decoded characters.
#[verifier::external_body]
fn utf8_to_string(b: Vec<u8>) -> (r: Option<String>)
    ensures
        r matches Some(s) ==> valid_utf8(b@) && s@ == decode_utf8(b@),
        r is None ==> !valid_utf8(b@),
{
    String::from_utf8(b).ok()
}

/// The application-wide fixed derivation salt of the legacy format.
pub open spec fn legacy_salt() -> Seq<char> {
    "2pass_fixed_salt_change_in_prod"@
}

/// Derives the 256-bit legacy key from the master passphrase with the
/// memory-hard derivation function and the fixed application salt.
pub fn derive_legacy_key(master_password: &str) -> (r: Vec<u8>)
    requires
        master_password@.len() <= 0x3fff_ffff,
    ensures
        r@ == argon2_of(
            vstd::utf8::encode_utf8(master_password@),
            vstd::utf8::encode_utf8(legacy_salt()),
        ),
        r@.len() == 32,
{
    let salt = "2pass_fixed_salt_change_in_prod";
    proof {
        reveal_strlit("2pass_fixed_salt_change_in_prod");
        assert(salt@.len() == 31);
    }
    argon2_derive_str(master_password, salt)
}

/// Encrypts a blob under the key with a freshly drawn 96-bit nonce,
/// returning the ciphertext and the nonce.  Decrypting the result under
/// the same key and nonce yields the blob again.
pub fn encrypt_data(plaintext: &[u8], key: &[u8]) -> (r: (Vec<u8>, Vec<u8>))
    requires
        key@.len() == 32,
        plaintext@.len() <= 0x10_0000_0000,
    ensures
        r.1@.len() == 12,
        r.0@ == aead_enc(key@, r.1@, plaintext@),
        r.0@.len() == plaintext@.len() + 16,
        aead_dec(key@, r.1@, r.0@) == Option::Some(plaintext@),
{
    let nonce = random_bytes(12);
    let ct = aes_gcm_seal(key, nonce.as_slice(), plaintext);
    (ct, nonce)
}

/// Decrypts a blob.  The nonce must be exactly 96 bits; tampering, a
/// wrong key and a malformed ciphertext all surface as the one generic
/// failure, never as partial plaintext.
pub fn decrypt_data(ciphertext: &[u8], nonce: &[u8], key: &[u8]) -> (r: Result<
    Vec<u8>,
    VaultError,
>)
    requires
        key@.len() == 32,
    ensures
        nonce@.len() != 12 ==> r == Result::<Vec<u8>, VaultError>::Err(VaultError::InvalidNonce),
        nonce@.len() == 12 ==> match r {
            Result::Ok(pt) => aead_dec(key@, nonce@, ciphertext@) == Option::Some(pt@)
                && ciphertext@ == aead_enc(key@, nonce@, pt@),
            Result::Err(e) => e == VaultError::CryptoFailure && aead_dec(
                key@,
                nonce@,
                ciphertext@,
            ) is None,
        },
{
    if nonce.len() != 12 {
        return Result::Err(VaultError::InvalidNonce);
    }
    match aes_gcm_open(key, nonce, ciphertext) {
        Option::Some(pt) => Result::Ok(pt),
        Option::None => Result::Err(VaultError::CryptoFailure),
    }
}

/// What decrypting a legacy envelope yields, step by step: both texts
/// must be canonical Base64, the nonce must be 96 bits, the ciphertext
/// must authenticate, and the plaintext must be UTF-8.
pub open spec fn legacy_decrypt_result(enc: Seq<char>, non: Seq<char>, key: Seq<u8>) -> Result<
    Seq<char>,
    VaultError,
> {
    match base64_decoded(enc) {
        Option::None => Result::Err(VaultError::InvalidBase64),
        Option::Some(ct) => match base64_decoded(non) {
            Option::None => Result::Err(VaultError::InvalidBase64),
            Option::Some(nb) => if nb.len() != 12 {
                Result::Err(VaultError::InvalidNonce)
            } else {
                match aead_dec(key, nb, ct) {
                    Option::None => Result::Err(VaultError::CryptoFailure),
                    Option::Some(pt) => if valid_utf8(pt) {
                        Result::Ok(decode_utf8(pt))
                    } else {
                        Result::Err(VaultError::InvalidUtf8)
                    },
                }
            },
        },
    }
}

/// The fails-closed law: when authenticated decryption yields nothing —
/// as it does under a wrong key or after any tampering with ciphertext
/// or nonce — legacy decryption reports exactly the one generic failure,
/// never partial plaintext.
pub proof fn lemma_legacy_decrypt_fails_closed(enc: Seq<char>, non: Seq<char>, key: Seq<u8>)
    requires
        base64_decoded(enc) is Some,
        base64_decoded(non) is Some,
        base64_decoded(non)->0.len() == 12,
        aead_dec(key, base64_decoded(non)->0, base64_decoded(enc)->0) is None,
    ensures
        legacy_decrypt_result(enc, non, key) == Result::<Seq<char>, VaultError>::Err(
            VaultError::CryptoFailure,
        ),
{
}

/// Decrypts the encrypted blob of a legacy storage file: Base64
/// ciphertext and nonce, authenticated decryption, UTF-8 plaintext.
pub fn decrypt_legacy_data(encrypted: &str, nonce_str: &str, key: &[u8]) -> (r: Result<
    String,
    VaultError,
>)
    requires
        key@.len() == 32,
    ensures
        r matches Ok(s) ==> legacy_decrypt_result(encrypted@, nonce_str@, key@)
            == Result::<Seq<char>, VaultError>::Ok(s@),
        r matches Err(e) ==> legacy_decrypt_result(encrypted@, nonce_str@, key@)
            == Result::<Seq<char>, VaultError>::Err(e),
{
    let ct = match base64_decode(encrypted) {
        Option::Some(c) => c,
        Option::None => {
            return Result::Err(VaultError::InvalidBase64);
        },
    };
    let nb = match base64_decode(nonce_str) {
        Option::Some(n) => n,
        Option::None => {
            return Result::Err(VaultError::InvalidBase64);
        },
    };
    if nb.len() != 12 {
        return Result::Err(VaultError::InvalidNonce);
    }
    let pt = match aes_gcm_open(key, nb.as_slice(), ct.as_slice()) {
        Option::Some(p) => p,
        Option::None => {
            return Result::Err(VaultError::CryptoFailure);
        },
    };
    match utf8_to_string(pt) {
        Option::Some(s) => Result::Ok(s),
        Option::None => Result::Err(VaultError::InvalidUtf8),
    }
}

} // verus!
