use vstd::prelude::*;

use crate::error::StoreError;
use crate::layout::{entry_path_of, is_valid_name, lemma_entry_path_injective};
use crate::prompt::trimmed;
use crate::store::{add_decision, init_decision, opened, present_decision, sealed};

verus! {

/// A store as its operations see it: the text of the recipient record, if
/// one can be read, and the contents of each file, keyed by path.
pub struct StoreModel {
    /// The text of the recipient record; `None` when it is missing or unreadable.
    pub record: Option<Seq<char>>,
    /// The contents of each entry file, keyed by its path.
    pub files: Map<Seq<char>, Seq<u8>>,
}

/// An encryption engine: the ciphertext of a plaintext for a recipient, or
/// `None` for a failure.
pub type Encryptor = spec_fn(Seq<u8>, Seq<char>) -> Option<Seq<u8>>;

/// A decryption engine: the plaintext of a ciphertext, or `None` for a failure.
pub type Decryptor = spec_fn(Seq<u8>) -> Option<Seq<u8>>;

/// Whether `dec` undoes every encryption that `enc` completes.
pub open spec fn round_trips(enc: Encryptor, dec: Decryptor) -> bool {
    forall|x: Seq<u8>, r: Seq<char>|
        (#[trigger] enc(x, r)) is Some ==> dec(enc(x, r).unwrap()) == Some(x)
}

/// Initialising the store at `root` for `recipient`: the outcome and the store
/// afterwards.
pub open spec fn model_init(m: StoreModel, root: Seq<char>, recipient: Seq<char>) -> (
    Result<(), StoreError>,
    StoreModel,
) {
    match init_decision(root, recipient) {
        Ok(_) => (Ok(()), StoreModel { record: Some(recipient), files: m.files }),
        Err(e) => (Err(e), m),
    }
}

/// Adding the entry `name` holding `secret`, encrypted by `enc`: the outcome
/// and the store afterwards.
pub open spec fn model_add(
    m: StoreModel,
    root: Seq<char>,
    name: Seq<char>,
    secret: Seq<u8>,
    enc: Encryptor,
) -> (Result<(), StoreError>, StoreModel) {
    let exists = m.files.dom().contains(entry_path_of(root, name));
    match add_decision(root, name, exists, m.record) {
        Err(e) => (Err(e), m),
        Ok((path, recipient)) => match sealed(enc(secret, recipient)) {
            Err(e) => (Err(e), m),
            Ok(c) => (Ok(()), StoreModel { record: m.record, files: m.files.insert(path, c) }),
        },
    }
}

/// Reading the entry `name` through `dec`: the secret, or the failure.
pub open spec fn model_get(m: StoreModel, root: Seq<char>, name: Seq<char>, dec: Decryptor) -> Result<
    Seq<u8>,
    StoreError,
> {
    let exists = m.files.dom().contains(entry_path_of(root, name));
    match present_decision(root, name, exists) {
        Err(e) => Err(e),
        Ok(path) => opened(dec(m.files[path])),
    }
}

/// Removing the entry `name`: the outcome and the store afterwards.
pub open spec fn model_delete(m: StoreModel, root: Seq<char>, name: Seq<char>) -> (
    Result<(), StoreError>,
    StoreModel,
) {
    let exists = m.files.dom().contains(entry_path_of(root, name));
    match present_decision(root, name, exists) {
        Err(e) => (Err(e), m),
        Ok(path) => (Ok(()), StoreModel { record: m.record, files: m.files.remove(path) }),
    }
}

/// After a store is initialised, adding a valid name that is not yet stored
/// succeeds whenever the engine encrypts for the recipient, once trimmed,
/// that initialisation recorded.
pub proof fn lemma_init_then_add(
    m: StoreModel,
    root: Seq<char>,
    recipient: Seq<char>,
    name: Seq<char>,
    secret: Seq<u8>,
    enc: Encryptor,
)
    requires
        model_init(m, root, recipient).0 is Ok,
        is_valid_name(name),
        !m.files.dom().contains(entry_path_of(root, name)),
        enc(secret, trimmed(recipient)) is Some,
    ensures
        model_add(model_init(m, root, recipient).1, root, name, secret, enc).0 is Ok,
{
}

/// After a successful addition, reading the entry back through a decryption
/// engine that undoes the encryption gives the secret that was added.
pub proof fn lemma_add_then_get(
    m: StoreModel,
    root: Seq<char>,
    name: Seq<char>,
    secret: Seq<u8>,
    enc: Encryptor,
    dec: Decryptor,
)
    requires
        round_trips(enc, dec),
        model_add(m, root, name, secret, enc).0 is Ok,
    ensures
        model_get(model_add(m, root, name, secret, enc).1, root, name, dec) == Ok::<
            Seq<u8>,
            StoreError,
        >(secret),
{
    let path = entry_path_of(root, name);
    let exists = m.files.dom().contains(path);
    let (rec_path, recipient) = add_decision(root, name, exists, m.record).unwrap();
    assert(rec_path == path);
    assert(enc(secret, recipient) is Some);
}

/// Adding the same name twice in a row: the second addition fails with
/// `EntryAlreadyExists` and leaves the store, the first entry's ciphertext
/// included, as it was.
pub proof fn lemma_add_twice(
    m: StoreModel,
    root: Seq<char>,
    name: Seq<char>,
    first: Seq<u8>,
    second: Seq<u8>,
    enc: Encryptor,
)
    requires
        model_add(m, root, name, first, enc).0 is Ok,
    ensures
        ({
            let after = model_add(m, root, name, first, enc).1;
            model_add(after, root, name, second, enc) == (
                Err::<(), StoreError>(StoreError::EntryAlreadyExists),
                after,
            )
        }),
{
    let path = entry_path_of(root, name);
    let exists = m.files.dom().contains(path);
    let (rec_path, recipient) = add_decision(root, name, exists, m.record).unwrap();
    assert(rec_path == path);
    assert(model_add(m, root, name, first, enc).1.files.dom().contains(path));
}

/// Adding one valid name leaves the entry of any other valid name as it was:
/// present or absent, with the same contents.
pub proof fn lemma_add_keeps_other_entries(
    m: StoreModel,
    root: Seq<char>,
    kept: Seq<char>,
    added: Seq<char>,
    secret: Seq<u8>,
    enc: Encryptor,
)
    requires
        is_valid_name(kept),
        is_valid_name(added),
        kept != added,
    ensures
        ({
            let after = model_add(m, root, added, secret, enc).1;
            let p = entry_path_of(root, kept);
            &&& after.files.dom().contains(p) == m.files.dom().contains(p)
            &&& m.files.dom().contains(p) ==> after.files[p] == m.files[p]
        }),
{
    lemma_entry_path_injective(root, kept, added);
}

/// After removing an entry, reading it fails with `EntryNotFound`, whether or
/// not the removal found it.
pub proof fn lemma_delete_then_get(m: StoreModel, root: Seq<char>, name: Seq<char>, dec: Decryptor)
    requires
        is_valid_name(name),
    ensures
        model_get(model_delete(m, root, name).1, root, name, dec) == Err::<Seq<u8>, StoreError>(
            StoreError::EntryNotFound,
        ),
{
    let path = entry_path_of(root, name);
    assert(!model_delete(m, root, name).1.files.dom().contains(path));
}

} // verus!
