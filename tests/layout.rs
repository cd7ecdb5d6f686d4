use passucks::error::StoreError;
use passucks::layout::{
    entry_path, is_valid_entry_name, list_entry_names, recipient_record_path, DirItem,
};

fn item(name: &str, is_file: bool) -> DirItem {
    DirItem { file_name: name.to_string(), is_file }
}

#[test]
fn entry_path_appends_extension_under_root() {
    let p = entry_path("/home/u/.my-password-store", "bank").unwrap();
    assert_eq!(p, "/home/u/.my-password-store/bank.gpg");
}

#[test]
fn entry_path_keeps_single_separator() {
    let p = entry_path("/store/", "mail").unwrap();
    assert_eq!(p, "/store/mail.gpg");
}

#[test]
fn entry_path_keeps_existing_extension_in_name() {
    assert_eq!(entry_path("/s", "a.txt").unwrap(), "/s/a.txt.gpg");
    assert_eq!(entry_path("/s", "a.b").unwrap(), "/s/a.b.gpg");
}

#[test]
fn entry_path_refuses_traversal_and_reserved_names() {
    for name in ["", "..", "../evil", "a/b", "a\\b", "x\0y", ".gpg-id", "/abs"] {
        assert_eq!(entry_path("/s", name), Err(StoreError::InvalidName), "{:?}", name);
        assert!(!is_valid_entry_name(name));
    }
}

#[test]
fn entry_path_accepts_ordinary_names() {
    for name in ["bank", "a..b", ".hidden", "gpg-id", "mail.gpg", "é"] {
        assert!(is_valid_entry_name(name), "{:?}", name);
        assert!(entry_path("/s", name).is_ok());
    }
}

#[test]
fn distinct_names_give_distinct_paths() {
    let names = ["a", "b", "a.gpg", "ab", "a.b", "b.a", "bank", "bank.", ".bank"];
    for x in names {
        for y in names {
            if x != y {
                assert_ne!(entry_path("/s", x).unwrap(), entry_path("/s", y).unwrap());
            }
        }
    }
}

#[test]
fn recipient_record_sits_under_root() {
    assert_eq!(recipient_record_path("/home/u/store"), "/home/u/store/.gpg-id");
    assert_eq!(recipient_record_path("/home/u/store/"), "/home/u/store/.gpg-id");
}

#[test]
fn listing_keeps_entry_files_only() {
    let items = vec![
        item("bank.gpg", true),
        item(".gpg-id", true),
        item("notes.txt", true),
        item("folder.gpg", false),
        item(".gpg", true),
        item("..gpg", true),
        item("mail.gpg", true),
        item("archive.gpg.bak", true),
    ];
    let names = list_entry_names(&items);
    assert_eq!(names, vec!["bank.gpg".to_string(), "..gpg".to_string(), "mail.gpg".to_string()]);
}

#[test]
fn listing_never_names_recipient_record() {
    let mut items = vec![item(".gpg-id", true)];
    assert!(list_entry_names(&items).is_empty());
    for k in 0..50 {
        items.push(item(&format!("entry{}.gpg", k), true));
        items.push(item(".gpg-id", true));
        let names = list_entry_names(&items);
        assert_eq!(names.len(), k + 1);
        assert!(names.iter().all(|n| n != ".gpg-id"));
    }
}

#[test]
fn listing_of_empty_directory_is_empty() {
    assert!(list_entry_names(&Vec::new()).is_empty());
}
