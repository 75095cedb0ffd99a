//! Error taxonomy of the vault engine.

use vstd::prelude::*;
use vstd::string::*;
use crate::numtext::dec_str_nat;

verus! {

/// Every fallible operation of the engine reports one of these conditions.
/// Authentication failures, missing items, conflicts, malformed input and
/// cryptographic failures are kept apart so that a caller can react to each.
#[derive(Debug, Clone, Copy, PartialEq, Eq, Structural)]
pub enum VaultError {
    /// No vault is unlocked.
    NotAuthenticated,
    /// No entry carries the requested identifier.
    EntryNotFound,
    /// No group carries the requested identifier.
    GroupNotFound,
    /// A group still holds direct entries and cannot be deleted.
    GroupNotEmpty,
    /// An entry with the same identifier already exists.
    DuplicateEntry,
    /// A group with the same identifier already exists.
    DuplicateGroup,
    /// The old passphrase given for a passphrase change is wrong.
    InvalidOldPassword,
    /// An identifier is not a well-formed UUID.
    InvalidId,
    /// A nonce is not exactly 96 bits long.
    InvalidNonce,
    /// The legacy envelope carries a ciphertext but no nonce.
    MissingNonce,
    /// Authenticated decryption failed; wrong key and tampered data are
    /// deliberately not distinguished.
    CryptoFailure,
    /// Decrypted bytes are not valid UTF-8.
    InvalidUtf8,
    /// A blob is not valid standard Base64.
    InvalidBase64,
    /// A one-time-password secret holds a character outside A-Z and 2-7.
    InvalidBase32Char { ch: char, position: usize },
    /// A one-time-password secret is not decodable Base32.
    InvalidBase32,
    /// A one-time-password secret decodes to no bytes at all.
    EmptySecret,
    /// A numeric custom field does not parse as a signed integer.
    InvalidNumber,
    /// An imported table lacks one of the required columns.
    MissingColumn,
    /// An imported table could not be parsed at all.
    MalformedCsv,
}

/// The human-readable text of each condition; the invalid-character report
/// names the offending character and its position.
pub open spec fn message_spec(e: VaultError) -> Seq<char> {
    match e {
        VaultError::NotAuthenticated => "Not authenticated"@,
        VaultError::EntryNotFound => "Entry not found"@,
        VaultError::GroupNotFound => "Group not found"@,
        VaultError::GroupNotEmpty => "Cannot delete group with entries"@,
        VaultError::DuplicateEntry => "An entry with this id already exists"@,
        VaultError::DuplicateGroup => "A group with this id already exists"@,
        VaultError::InvalidOldPassword => "Invalid old password"@,
        VaultError::InvalidId => "Invalid ID"@,
        VaultError::InvalidNonce => "Invalid nonce size"@,
        VaultError::MissingNonce => "Missing nonce in encrypted data"@,
        VaultError::CryptoFailure => "Decryption failed"@,
        VaultError::InvalidUtf8 => "Decrypted data is not valid UTF-8"@,
        VaultError::InvalidBase64 => "Invalid base64 data"@,
        VaultError::InvalidBase32Char { ch, position } => "Invalid character '"@ + seq![ch]
            + "' at position "@ + dec_str_nat(position as nat)
            + ". Base32 only allows A-Z and 2-7"@,
        VaultError::InvalidBase32 => "Invalid TOTP secret format"@,
        VaultError::EmptySecret => "TOTP secret is empty"@,
        VaultError::InvalidNumber => "Invalid numeric field"@,
        VaultError::MissingColumn => "Missing required column"@,
        VaultError::MalformedCsv => "Malformed CSV input"@,
    }
}

impl VaultError {
    /// A human-readable description, for the boundary layer to surface.
    pub fn message(&self) -> (r: String)
        ensures
            r@ == message_spec(*self),
    {
        match *self {
            VaultError::NotAuthenticated => String::from_str("Not authenticated"),
            VaultError::EntryNotFound => String::from_str("Entry not found"),
            VaultError::GroupNotFound => String::from_str("Group not found"),
            VaultError::GroupNotEmpty => String::from_str("Cannot delete group with entries"),
            VaultError::DuplicateEntry => String::from_str(
                "An entry with this id already exists",
            ),
            VaultError::DuplicateGroup => String::from_str("A group with this id already exists"),
            VaultError::InvalidOldPassword => String::from_str("Invalid old password"),
            VaultError::InvalidId => String::from_str("Invalid ID"),
            VaultError::InvalidNonce => String::from_str("Invalid nonce size"),
            VaultError::MissingNonce => String::from_str("Missing nonce in encrypted data"),
            VaultError::CryptoFailure => String::from_str("Decryption failed"),
            VaultError::InvalidUtf8 => String::from_str("Decrypted data is not valid UTF-8"),
            VaultError::InvalidBase64 => String::from_str("Invalid base64 data"),
            VaultError::InvalidBase32Char { ch, position } => {
                let mut r = String::from_str("Invalid character '");
                r.push(ch);
                r.append("' at position ");
                let digits = crate::numtext::u64_to_string(position as u64);
                r.append(digits.as_str());
                r.append(". Base32 only allows A-Z and 2-7");
                proof {
                    assert("Invalid character '"@.push(ch) =~= "Invalid character '"@ + seq![
                        ch,
                    ]);
                }
                r
            },
            VaultError::InvalidBase32 => String::from_str("Invalid TOTP secret format"),
            VaultError::EmptySecret => String::from_str("TOTP secret is empty"),
            VaultError::InvalidNumber => String::from_str("Invalid numeric field"),
            VaultError::MissingColumn => String::from_str("Missing required column"),
            VaultError::MalformedCsv => String::from_str("Malformed CSV input"),
        }
    }
}

} // verus!
