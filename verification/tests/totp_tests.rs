use twopass::errors::VaultError;
use twopass::totp::{
    add_base32_padding, generate_totp, generate_totp_at, generate_totp_secret, get_totp_qr_url,
};

// The RFC test secret "12345678901234567890" in Base32.
const RFC_SECRET: &str = "GEZDGNBVGY3TQOJQGEZDGNBVGY3TQOJQ";

#[test]
fn known_vector_reproduces_the_standard_code() {
    assert_eq!(generate_totp_at(RFC_SECRET, 59).unwrap(), "287082");
    assert_eq!(generate_totp_at(RFC_SECRET, 1111111109).unwrap(), "081804");
    assert_eq!(generate_totp_at(RFC_SECRET, 1234567890).unwrap(), "005924");
}

#[test]
fn normalization_strips_blanks_padding_and_case() {
    let messy = "gezd gnbv gy3t qojq GEZD GNBV GY3T QOJQ==";
    assert_eq!(generate_totp_at(messy, 59).unwrap(), "287082");
}

#[test]
fn the_offending_character_is_identified() {
    match generate_totp_at("ABC1DEF", 0) {
        Err(VaultError::InvalidBase32Char { ch, position }) => {
            assert_eq!(ch, '1');
            assert_eq!(position, 3);
        }
        other => panic!("expected an invalid-character error, got {:?}", other),
    }
    // Positions are reported on the normalized secret.
    match generate_totp_at("ab 0", 0) {
        Err(VaultError::InvalidBase32Char { ch, position }) => {
            assert_eq!(ch, '0');
            assert_eq!(position, 2);
        }
        other => panic!("expected an invalid-character error, got {:?}", other),
    }
}

#[test]
fn empty_and_undecodable_secrets_are_rejected() {
    assert_eq!(generate_totp_at("", 0).unwrap_err(), VaultError::EmptySecret);
    // One character is five bits: decodable under neither form.
    assert_eq!(
        generate_totp_at("A", 0).unwrap_err(),
        VaultError::InvalidBase32
    );
}

#[test]
fn padding_completes_to_a_multiple_of_eight() {
    assert_eq!(add_base32_padding("A"), "A=======");
    assert_eq!(add_base32_padding("ABCDEFG"), "ABCDEFG=");
    assert_eq!(add_base32_padding("ABCDEFGH"), "ABCDEFGH");
    assert_eq!(add_base32_padding(""), "");
}

#[test]
fn generated_secrets_are_160_bits_of_base32() {
    let s = generate_totp_secret();
    assert_eq!(s.len(), 32);
    let decoded = data_encoding::BASE32.decode(s.as_bytes()).unwrap();
    assert_eq!(decoded.len(), 20);
    // A fresh secret almost surely differs from the previous one.
    let t = generate_totp_secret();
    assert!(s != t || s.is_empty());
}

#[test]
fn current_code_has_six_digits() {
    let code = generate_totp(RFC_SECRET).unwrap();
    assert_eq!(code.len(), 6);
    assert!(code.chars().all(|c| c.is_ascii_digit()));
}

#[test]
fn qr_url_percent_encodes_issuer_and_account_but_not_the_secret() {
    let url = get_totp_qr_url("JBSWY3DP===", "me@x.com", "My App");
    assert_eq!(
        url,
        "otpauth://totp/My%20App:me%40x.com?secret=JBSWY3DP&issuer=My%20App"
    );
}
