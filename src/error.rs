use vstd::prelude::*;

verus! {

/// The kinds of failure that a store operation reports to its caller.
#[derive(Clone, Copy, Debug, PartialEq, Eq, Structural)]
pub enum StoreError {
    /// The store root is missing or is not a directory.
    StoreNotFound,
    /// The recipient record is missing, unreadable or empty.
    StoreNotInitialized,
    /// The entry name is empty, reserved, or could leave the store root.
    InvalidName,
    /// The recipient handed to initialisation is empty.
    InvalidRecipient,
    /// An entry of that name is already stored.
    EntryAlreadyExists,
    /// No entry of that name is stored.
    EntryNotFound,
    /// The two entries of a confirmed secret differ.
    SecretMismatch,
    /// A requested password length is not a positive integer.
    InvalidLength,
    /// The encryption engine reported a failure.
    EncryptionFailed,
    /// The decryption engine reported a failure.
    DecryptionFailed,
    /// Reading or writing the store failed.
    Storage,
}

} // verus!
