use vstd::prelude::*;

use crate::error::StoreError;
use crate::layout::{
    entry_listing, entry_path, entry_path_of, is_valid_name,
    list_entry_names, recipient_record_name, recipient_record_path, recipient_record_path_of,
    DirItem,
};
use crate::prompt::{trim, trimmed};
use crate::secret::Secret;

verus! {

/// What initialising a store writes: the root directory to create, and the
/// recipient record to write into it.
pub struct InitPlan {
    /// The directory to create, with its missing parents.
    pub root: String,
    /// The path of the recipient record.
    pub record_path: String,
    /// The text to write to the recipient record, replacing what it held.
    pub record: String,
}

/// What adding an entry needs once every check has passed.
pub struct AddPlan {
    /// The path of the new entry file.
    pub path: String,
    /// The recipient to encrypt for.
    pub recipient: String,
}

/// The characters of an optional text.
pub open spec fn text_of(t: Option<&str>) -> Option<Seq<char>> {
    match t {
        Some(s) => Some(s@),
        None => None,
    }
}

/// The bytes of an optional buffer.
pub open spec fn bytes_of(b: Option<Vec<u8>>) -> Option<Seq<u8>> {
    match b {
        Some(v) => Some(v@),
        None => None,
    }
}

/// The outcome of initialising the store at `root` for `recipient`: the
/// record path, or the reason for refusing.
pub open spec fn init_decision(root: Seq<char>, recipient: Seq<char>) -> Result<Seq<char>, StoreError> {
    if trimmed(recipient).len() == 0 {
        Err(StoreError::InvalidRecipient)
    } else {
        Ok(recipient_record_path_of(root))
    }
}

/// The recipient named by the contents of a recipient record; `None` stands
/// for a record that is missing or unreadable.
pub open spec fn recipient_of(record: Option<Seq<char>>) -> Option<Seq<char>> {
    match record {
        Some(text) => if trimmed(text).len() > 0 {
            Some(trimmed(text))
        } else {
            None
        },
        None => None,
    }
}

/// The outcome of the checks that precede adding the entry `name`: its path
/// and the recipient, or the first reason for refusing.
pub open spec fn add_decision(
    root: Seq<char>,
    name: Seq<char>,
    target_exists: bool,
    record: Option<Seq<char>>,
) -> Result<(Seq<char>, Seq<char>), StoreError> {
    if !is_valid_name(name) {
        Err(StoreError::InvalidName)
    } else if target_exists {
        Err(StoreError::EntryAlreadyExists)
    } else {
        match recipient_of(record) {
            Some(r) => Ok((entry_path_of(root, name), r)),
            None => Err(StoreError::StoreNotInitialized),
        }
    }
}

/// The outcome of the checks that precede reading or removing the entry
/// `name`: its path, or the first reason for refusing.
pub open spec fn present_decision(root: Seq<char>, name: Seq<char>, target_exists: bool) -> Result<
    Seq<char>,
    StoreError,
> {
    if !is_valid_name(name) {
        Err(StoreError::InvalidName)
    } else if !target_exists {
        Err(StoreError::EntryNotFound)
    } else {
        Ok(entry_path_of(root, name))
    }
}

/// The bytes to store from what the encryption engine returned (`None` for a
/// failure).
pub open spec fn sealed(ciphertext: Option<Seq<u8>>) -> Result<Seq<u8>, StoreError> {
    match ciphertext {
        Some(c) => Ok(c),
        None => Err(StoreError::EncryptionFailed),
    }
}

/// The secret to hand back from what the decryption engine returned (`None`
/// for a failure).
pub open spec fn opened(plaintext: Option<Seq<u8>>) -> Result<Seq<u8>, StoreError> {
    match plaintext {
        Some(p) => Ok(p),
        None => Err(StoreError::DecryptionFailed),
    }
}

/// Checks an initialisation of the store at `root` for `recipient`, and says
/// what to write. An empty recipient is refused.
pub fn init_store(root: &str, recipient: &str) -> (r: Result<InitPlan, StoreError>)
    ensures
        match r {
            Ok(p) => {
                &&& init_decision(root@, recipient@) == Ok::<Seq<char>, StoreError>(p.record_path@)
                &&& p.root@ == root@
                &&& p.record@ == recipient@
            },
            Err(e) => init_decision(root@, recipient@) == Err::<Seq<char>, StoreError>(e),
        },
{
    if trim(recipient).unicode_len() == 0 {
        return Err(StoreError::InvalidRecipient);
    }
    Ok(
        InitPlan {
            root: String::from_str(root),
            record_path: recipient_record_path(root),
            record: String::from_str(recipient),
        },
    )
}

/// The names of the entries of the store at `root`, from whether the root is
/// a directory and the items found directly under it. A root that is missing
/// or is not a directory is reported; the recipient record is never listed.
pub fn list_entries(root_is_dir: bool, items: &Vec<DirItem>) -> (r: Result<Vec<String>, StoreError>)
    ensures
        !root_is_dir ==> r == Err::<Vec<String>, StoreError>(StoreError::StoreNotFound),
        root_is_dir ==> (r matches Ok(names) && names@.map_values(|s: String| s@) == entry_listing(
            items@,
        ) && forall|i: int| 0 <= i < names@.len() ==> names@[i]@ != recipient_record_name()),
{
    if !root_is_dir {
        return Err(StoreError::StoreNotFound);
    }
    Ok(list_entry_names(items))
}

/// The recipient named by a recipient record's contents (`None` for a record
/// that is missing or unreadable); a missing or blank record means that the
/// store was never initialised.
pub fn read_recipient(record: Option<&str>) -> (r: Result<String, StoreError>)
    ensures
        match recipient_of(text_of(record)) {
            Some(rec) => (r matches Ok(s) && s@ == rec),
            None => r == Err::<String, StoreError>(StoreError::StoreNotInitialized),
        },
{
    match record {
        Some(text) => {
            let t = trim(text);
            if t.unicode_len() == 0 {
                Err(StoreError::StoreNotInitialized)
            } else {
                Ok(String::from_str(t))
            }
        },
        None => Err(StoreError::StoreNotInitialized),
    }
}

/// The checks that precede adding the entry `name` to the store at `root`,
/// in order: the name is valid, no entry file is present at its path
/// (`target_exists`), and the recipient record (`record`, `None` when it
/// could not be read) names a recipient. Adding never overwrites.
pub fn add_entry(root: &str, name: &str, target_exists: bool, record: Option<&str>) -> (r: Result<
    AddPlan,
    StoreError,
>)
    ensures
        match r {
            Ok(p) => add_decision(root@, name@, target_exists, text_of(record)) == Ok::<
                (Seq<char>, Seq<char>),
                StoreError,
            >((p.path@, p.recipient@)),
            Err(e) => add_decision(root@, name@, target_exists, text_of(record)) == Err::<
                (Seq<char>, Seq<char>),
                StoreError,
            >(e),
        },
{
    let path = match entry_path(root, name) {
        Ok(p) => p,
        Err(e) => return Err(e),
    };
    if target_exists {
        return Err(StoreError::EntryAlreadyExists);
    }
    let recipient = match read_recipient(record) {
        Ok(rec) => rec,
        Err(e) => return Err(e),
    };
    Ok(AddPlan { path, recipient })
}

/// What to write for a new entry, from what the encryption engine returned
/// (`None` for a failure). The secret that was encrypted is wiped whatever
/// the outcome; on failure nothing is to be written.
pub fn seal_entry(secret: Secret, ciphertext: Option<Vec<u8>>) -> (r: Result<Vec<u8>, StoreError>)
    ensures
        match r {
            Ok(c) => sealed(bytes_of(ciphertext)) == Ok::<Seq<u8>, StoreError>(c@),
            Err(e) => sealed(bytes_of(ciphertext)) == Err::<Seq<u8>, StoreError>(e),
        },
{
    let mut secret = secret;
    secret.wipe();
    match ciphertext {
        Some(c) => Ok(c),
        None => Err(StoreError::EncryptionFailed),
    }
}

/// The checks that precede reading the entry `name` of the store at `root`:
/// the name is valid and its entry file is present (`target_exists`). Gives
/// the path to decrypt.
pub fn get_entry(root: &str, name: &str, target_exists: bool) -> (r: Result<String, StoreError>)
    ensures
        match r {
            Ok(p) => present_decision(root@, name@, target_exists) == Ok::<Seq<char>, StoreError>(
                p@,
            ),
            Err(e) => present_decision(root@, name@, target_exists) == Err::<Seq<char>, StoreError>(
                e,
            ),
        },
{
    let path = match entry_path(root, name) {
        Ok(p) => p,
        Err(e) => return Err(e),
    };
    if !target_exists {
        return Err(StoreError::EntryNotFound);
    }
    Ok(path)
}

/// The secret read from an entry, from what the decryption engine returned
/// (`None` for a failure).
pub fn open_entry(plaintext: Option<Vec<u8>>) -> (r: Result<Secret, StoreError>)
    ensures
        match r {
            Ok(s) => opened(bytes_of(plaintext)) == Ok::<Seq<u8>, StoreError>(s@),
            Err(e) => opened(bytes_of(plaintext)) == Err::<Seq<u8>, StoreError>(e),
        },
{
    match plaintext {
        Some(p) => Ok(Secret::new(p)),
        None => Err(StoreError::DecryptionFailed),
    }
}

/// The checks that precede removing the entry `name` of the store at `root`:
/// the name is valid and its entry file is present (`target_exists`). Gives
/// the path to remove.
pub fn delete_entry(root: &str, name: &str, target_exists: bool) -> (r: Result<String, StoreError>)
    ensures
        match r {
            Ok(p) => present_decision(root@, name@, target_exists) == Ok::<Seq<char>, StoreError>(
                p@,
            ),
            Err(e) => present_decision(root@, name@, target_exists) == Err::<Seq<char>, StoreError>(
                e,
            ),
        },
{
    get_entry(root, name, target_exists)
}

/// Updating an entry is not offered; this does nothing and reports success.
pub fn _update_entry(_name: &str) -> (r: Result<(), StoreError>)
    ensures
        r == Ok::<(), StoreError>(()),
{
    Ok(())
}

} // verus!
