//! Core engine of a local encrypted credential vault.
//!
//! The engine models a vault as a flat arena of groups and entries with
//! stable string identifiers, maps it losslessly (up to documented lossy
//! fields) onto the record shape of the on-disk container format, derives
//! keys from a master passphrase, encrypts and decrypts byte blobs with an
//! authenticated cipher, migrates an older JSON-based layout into a fresh
//! vault, generates time-based one-time passwords, and signs requests for
//! remote object-storage synchronization.

pub mod codec;
pub mod crypto;
pub mod csvimport;
pub mod errors;
pub mod migrate;
pub mod model;
pub mod numtext;
pub mod record;
pub mod strutil;
pub mod sync;
pub mod timeid;
pub mod totp;
pub mod vault;

pub use errors::VaultError;
pub use model::AppConfig;
pub use model::ConfigManager;
pub use model::PasswordEntry;
pub use model::PasswordGroup;
pub use model::PasswordHistory;
pub use timeid::current_timestamp;
pub use totp::add_base32_padding;
pub use totp::generate_totp;
pub use totp::generate_totp_at;
pub use totp::generate_totp_secret;
pub use totp::get_totp_qr_url;
pub use vault::Vault;
pub use sync::OssConfig;
pub use sync::SyncConfig;
pub use sync::SyncManager;
pub use sync::SyncProvider;
pub use sync::SyncResult;
pub use sync::SyncStatus;
