use passucks::error::StoreError;
use passucks::prompt::{answer_is_yes, confirm_secret, parse_length, trim};
use passucks::secret::Secret;

#[test]
fn trim_drops_surrounding_white_space() {
    assert_eq!(trim("  hello \n"), "hello");
    assert_eq!(trim("\t a b \r\n"), "a b");
    assert_eq!(trim("   "), "");
    assert_eq!(trim(""), "");
    assert_eq!(trim("\u{3000}x\u{a0}"), "x");
}

#[test]
fn yes_answers() {
    assert!(answer_is_yes("y"));
    assert!(answer_is_yes("Y"));
    assert!(answer_is_yes("  y\n"));
    assert!(!answer_is_yes("n"));
    assert!(!answer_is_yes("yes"));
    assert!(!answer_is_yes(""));
    assert!(!answer_is_yes("yy"));
}

#[test]
fn length_answers() {
    assert_eq!(parse_length("12"), Ok(12));
    assert_eq!(parse_length(" 25\n"), Ok(25));
    assert_eq!(parse_length("007"), Ok(7));
    assert_eq!(parse_length("18446744073709551615"), Ok(usize::MAX));
    assert_eq!(parse_length("+5"), Ok(5));
    assert_eq!(parse_length(" +12\n"), Ok(12));
}

#[test]
fn invalid_length_answers() {
    for a in ["", "0", "000", "abc", "-3", "+", "++5", "+0", "+-5", "1 2", "3.5", "18446744073709551616", "99999999999999999999999"] {
        assert_eq!(parse_length(a), Err(StoreError::InvalidLength), "{:?}", a);
    }
}

#[test]
fn confirmed_secret_is_first_entry() {
    let r = confirm_secret(Secret::new(b"hunter2".to_vec()), Secret::new(b"hunter2".to_vec()));
    assert_eq!(r.unwrap().expose(), b"hunter2");
}

#[test]
fn mismatched_entries_are_reported() {
    let r = confirm_secret(Secret::new(b"hunter2".to_vec()), Secret::new(b"hunter3".to_vec()));
    assert!(matches!(r, Err(StoreError::SecretMismatch)));
    let r = confirm_secret(Secret::new(b"abc".to_vec()), Secret::new(b"abcd".to_vec()));
    assert!(matches!(r, Err(StoreError::SecretMismatch)));
}

#[test]
fn wiped_secret_is_empty() {
    let mut s = Secret::new(b"s3cr3t".to_vec());
    assert_eq!(s.len(), 6);
    s.wipe();
    assert_eq!(s.len(), 0);
    assert!(s.expose().is_empty());
}

#[test]
fn secrets_compare_by_content() {
    let a = Secret::new(b"abc".to_vec());
    assert!(a.same_as(&Secret::new(b"abc".to_vec())));
    assert!(!a.same_as(&Secret::new(b"abd".to_vec())));
    assert!(!a.same_as(&Secret::new(Vec::new())));
}
