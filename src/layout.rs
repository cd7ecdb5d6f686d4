use vstd::prelude::*;

use crate::error::StoreError;

verus! {

/// The extension, dot included, that every entry file carries.
pub open spec fn entry_extension() -> Seq<char> {
    seq!['.', 'g', 'p', 'g']
}

/// The file, directly under the store root, that holds the recipient.
pub open spec fn recipient_record_name() -> Seq<char> {
    seq!['.', 'g', 'p', 'g', '-', 'i', 'd']
}

/// The segment that names a parent directory.
pub open spec fn parent_segment() -> Seq<char> {
    seq!['.', '.']
}

/// Characters that may not appear in an entry name: path separators, and the
/// character that ends a path for the operating system.
pub open spec fn is_forbidden_char(c: char) -> bool {
    c == '/' || c == '\\' || c == '\0'
}

/// A name may address an entry: it is non-empty, holds no separator, is not
/// the parent segment and is not the recipient record.
pub open spec fn is_valid_name(n: Seq<char>) -> bool {
    &&& n.len() > 0
    &&& forall|i: int| 0 <= i < n.len() ==> !is_forbidden_char(#[trigger] n[i])
    &&& n != parent_segment()
    &&& n != recipient_record_name()
}

/// `file` placed directly under `root`, with one separator between them.
pub open spec fn join_path(root: Seq<char>, file: Seq<char>) -> Seq<char> {
    if root.len() > 0 && root.last() == '/' {
        root + file
    } else {
        root + seq!['/'] + file
    }
}

/// The file name under which the entry `name` is stored.
pub open spec fn entry_file_name(name: Seq<char>) -> Seq<char> {
    name + entry_extension()
}

/// The path of the file that holds the entry `name` of the store at `root`.
pub open spec fn entry_path_of(root: Seq<char>, name: Seq<char>) -> Seq<char> {
    join_path(root, entry_file_name(name))
}

/// The path of the recipient record of the store at `root`.
pub open spec fn recipient_record_path_of(root: Seq<char>) -> Seq<char> {
    join_path(root, recipient_record_name())
}

/// A file name that ends in the entry extension after a non-empty stem.
pub open spec fn is_entry_file_name(f: Seq<char>) -> bool {
    &&& f.len() > entry_extension().len()
    &&& f.subrange(f.len() - entry_extension().len(), f.len() as int) == entry_extension()
}

/// One item found directly under the store root.
pub struct DirItem {
    /// The item's file name, without any directory part.
    pub file_name: String,
    /// Whether the item is a regular file.
    pub is_file: bool,
}

/// Whether a directory item is an entry of the store.
pub open spec fn is_entry_item(d: DirItem) -> bool {
    d.is_file && is_entry_file_name(d.file_name@)
}

/// The file names of the entries among `items`, in the order in which they came.
pub open spec fn entry_listing(items: Seq<DirItem>) -> Seq<Seq<char>>
    decreases items.len(),
{
    if items.len() == 0 {
        Seq::empty()
    } else {
        let rest = entry_listing(items.drop_last());
        if is_entry_item(items.last()) {
            rest.push(items.last().file_name@)
        } else {
            rest
        }
    }
}

/// The recipient record never passes for an entry file.
pub proof fn lemma_recipient_record_is_not_entry_file()
    ensures
        !is_entry_file_name(recipient_record_name()),
{
    let r = recipient_record_name();
    assert(r.subrange(3, 7)[0] == 'g');
    assert(entry_extension()[0] == '.');
}

/// Each name in a listing is the name of an entry file.
pub proof fn lemma_listing_holds_entry_files(items: Seq<DirItem>)
    ensures
        forall|i: int|
            0 <= i < entry_listing(items).len() ==> is_entry_file_name(
                #[trigger] entry_listing(items)[i],
            ),
    decreases items.len(),
{
    if items.len() > 0 {
        let rest = items.drop_last();
        lemma_listing_holds_entry_files(rest);
        assert forall|i: int| 0 <= i < entry_listing(items).len() implies is_entry_file_name(
            #[trigger] entry_listing(items)[i],
        ) by {
            if i < entry_listing(rest).len() {
                assert(entry_listing(items)[i] == entry_listing(rest)[i]);
            }
        }
    }
}

/// A listing of the store never names the recipient record, whatever the
/// directory holds.
pub proof fn lemma_listing_excludes_recipient_record(items: Seq<DirItem>)
    ensures
        !entry_listing(items).contains(recipient_record_name()),
{
    lemma_listing_holds_entry_files(items);
    lemma_recipient_record_is_not_entry_file();
}

/// Distinct entry names of one store are stored at distinct paths.
pub proof fn lemma_entry_path_injective(root: Seq<char>, n1: Seq<char>, n2: Seq<char>)
    requires
        is_valid_name(n1),
        is_valid_name(n2),
        n1 != n2,
    ensures
        entry_path_of(root, n1) != entry_path_of(root, n2),
{
    let p1 = entry_path_of(root, n1);
    let p2 = entry_path_of(root, n2);
    let prefix = if root.len() > 0 && root.last() == '/' {
        root
    } else {
        root + seq!['/']
    };
    assert(p1 =~= prefix + (n1 + entry_extension()));
    assert(p2 =~= prefix + (n2 + entry_extension()));
    if p1 == p2 {
        assert(n1.len() == n2.len());
        assert forall|i: int| 0 <= i < n1.len() implies n1[i] == n2[i] by {
            assert(p1[prefix.len() + i] == n1[i]);
            assert(p2[prefix.len() + i] == n2[i]);
        }
        assert(n1 =~= n2);
    }
}

/// Whether two strings hold the same characters.
fn same_text(a: &str, b: &str) -> (r: bool)
    ensures
        r == (a@ == b@),
{
    let n = a.unicode_len();
    if n != b.unicode_len() {
        return false;
    }
    let mut i: usize = 0;
    while i < n
        invariant
            n == a@.len(),
            n == b@.len(),
            i <= n,
            forall|j: int| 0 <= j < i ==> a@[j] == b@[j],
        decreases n - i,
    {
        if a.get_char(i) != b.get_char(i) {
            return false;
        }
        i = i + 1;
    }
    assert(a@ =~= b@);
    true
}

/// Whether `name` may address an entry of a store.
pub fn is_valid_entry_name(name: &str) -> (r: bool)
    ensures
        r == is_valid_name(name@),
{
    let n = name.unicode_len();
    if n == 0 {
        return false;
    }
    let mut i: usize = 0;
    while i < n
        invariant
            n == name@.len(),
            i <= n,
            forall|j: int| 0 <= j < i ==> !is_forbidden_char(#[trigger] name@[j]),
        decreases n - i,
    {
        let c = name.get_char(i);
        if c == '/' || c == '\\' || c == '\0' {
            return false;
        }
        i = i + 1;
    }
    proof {
        reveal_strlit("..");
        reveal_strlit(".gpg-id");
    }
    assert(".."@ =~= parent_segment());
    assert(".gpg-id"@ =~= recipient_record_name());
    !same_text(name, "..") && !same_text(name, ".gpg-id")
}

/// `file` joined under `root`.
fn join(root: &str, file: &str) -> (r: String)
    ensures
        r@ == join_path(root@, file@),
{
    let mut p = String::from_str(root);
    let n = root.unicode_len();
    if n == 0 || root.get_char(n - 1) != '/' {
        proof {
            reveal_strlit("/");
        }
        assert("/"@ =~= seq!['/']);
        p.append("/");
    }
    p.append(file);
    assert(p@ =~= join_path(root@, file@));
    p
}

/// The path of the file that holds the entry `name` of the store at `root`;
/// an invalid name is refused.
pub fn entry_path(root: &str, name: &str) -> (r: Result<String, StoreError>)
    ensures
        is_valid_name(name@) ==> (r matches Ok(p) && p@ == entry_path_of(root@, name@)),
        !is_valid_name(name@) ==> r == Err::<String, StoreError>(StoreError::InvalidName),
{
    if !is_valid_entry_name(name) {
        return Err(StoreError::InvalidName);
    }
    let mut file = String::from_str(name);
    proof {
        reveal_strlit(".gpg");
    }
    assert(".gpg"@ =~= entry_extension());
    file.append(".gpg");
    let p = join(root, file.as_str());
    Ok(p)
}

/// The path of the recipient record of the store at `root`.
pub fn recipient_record_path(root: &str) -> (r: String)
    ensures
        r@ == recipient_record_path_of(root@),
{
    proof {
        reveal_strlit(".gpg-id");
    }
    assert(".gpg-id"@ =~= recipient_record_name());
    join(root, ".gpg-id")
}

/// Whether `f` is the file name of an entry.
fn is_entry_file(f: &str) -> (r: bool)
    ensures
        r == is_entry_file_name(f@),
{
    let n = f.unicode_len();
    if n <= 4 {
        return false;
    }
    let r = f.get_char(n - 4) == '.' && f.get_char(n - 3) == 'g' && f.get_char(n - 2) == 'p'
        && f.get_char(n - 1) == 'g';
    let ghost tail = f@.subrange(n - 4, n as int);
    if r {
        assert(tail =~= entry_extension());
    } else {
        assert(tail != entry_extension()) by {
            if tail == entry_extension() {
                assert(tail[0] == f@[n - 4]);
                assert(tail[1] == f@[n - 3]);
                assert(tail[2] == f@[n - 2]);
                assert(tail[3] == f@[n - 1]);
            }
        }
    }
    r
}

/// The file names of the entries among the items found under a store root:
/// regular files whose name ends in the entry extension after a non-empty
/// stem, in the order in which they were found.
pub fn list_entry_names(items: &Vec<DirItem>) -> (r: Vec<String>)
    ensures
        r@.map_values(|s: String| s@) == entry_listing(items@),
        forall|i: int| 0 <= i < r@.len() ==> r@[i]@ != recipient_record_name(),
{
    let mut r: Vec<String> = Vec::new();
    let mut i: usize = 0;
    while i < items.len()
        invariant
            i <= items@.len(),
            r@.map_values(|s: String| s@) == entry_listing(items@.take(i as int)),
        decreases items@.len() - i,
    {
        let item = &items[i];
        assert(items@.take(i + 1).drop_last() =~= items@.take(i as int));
        if item.is_file && is_entry_file(item.file_name.as_str()) {
            r.push(item.file_name.clone());
            assert(r@.map_values(|s: String| s@) =~= entry_listing(items@.take(i as int)).push(
                item.file_name@,
            ));
        }
        i = i + 1;
    }
    assert(items@.take(items@.len() as int) =~= items@);
    proof {
        lemma_listing_excludes_recipient_record(items@);
        assert forall|i: int| 0 <= i < r@.len() implies r@[i]@ != recipient_record_name() by {
            assert(r@.map_values(|s: String| s@)[i] == r@[i]@);
        }
    }
    r
}

} // verus!
