//! The errors of a secure slot and of the vault.
use vstd::prelude::*;

verus! {

/// Why one encrypted slot could not be read or written.
#[derive(Clone, Copy, Debug, PartialEq, Eq, Structural)]
pub enum SlotError {
    /// Nothing is stored at the slot's address.
    NoData,
    /// The stored blob does not authenticate under the slot's key.
    DecryptFailed,
    /// No random bytes could be had for a nonce or a passphrase.
    EntropyUnavailable,
    /// The plaintext is longer than the cipher accepts.
    PayloadTooLarge,
}

/// Why a vault operation failed.
#[derive(Clone, Copy, Debug, PartialEq, Eq, Structural)]
pub enum VaultError {
    /// A configuration listed in the directory has no stored payload.
    NoData,
    /// A configuration payload does not authenticate under its item key.
    DecryptFailed,
    /// The directory does not authenticate under the key derived from the password.
    WrongPassword,
    /// The directory decrypted but is not a JSON object of string maps.
    CorruptDirectory,
    /// A configuration decrypted but is not a JSON object of strings.
    CorruptItem,
    /// The requested configuration is absent, or has a name but no saved content.
    ConfigurationNotFound,
    /// No random bytes could be had.
    EntropyUnavailable,
    /// A plaintext is longer than the cipher accepts.
    PayloadTooLarge,
    /// A configuration was addressed to the slot that holds the directory itself.
    ReservedAddress,
}

impl VaultError {
    /// A short message for the user.
    pub fn message(&self) -> (r: &'static str) {
        match self {
            VaultError::NoData => "no data stored for this configuration",
            VaultError::DecryptFailed => "could not decrypt the configuration",
            VaultError::WrongPassword => "incorrect password",
            VaultError::CorruptDirectory => "the configuration directory is damaged",
            VaultError::CorruptItem => "could not load configuration",
            VaultError::ConfigurationNotFound => "configuration not found",
            VaultError::EntropyUnavailable => "no random source available",
            VaultError::PayloadTooLarge => "configuration too large to encrypt",
            VaultError::ReservedAddress => "this address is reserved for the configuration directory",
        }
    }
}

} // verus!
