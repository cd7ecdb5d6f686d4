use passucks::generator::{charset_symbol, generate_password, password_from_indices};

fn is_base(b: u8) -> bool {
    b.is_ascii_alphanumeric()
}

fn is_special(b: u8) -> bool {
    b"!@#$%^&*".contains(&b)
}

#[test]
fn twelve_symbols_from_base_set() {
    for _ in 0..200 {
        let s = generate_password(12, false);
        assert_eq!(s.len(), 12);
        assert_eq!(s.expose().len(), 12);
        assert!(s.expose().iter().all(|b| is_base(*b)));
    }
}

#[test]
fn zero_length_gives_empty_password() {
    assert!(generate_password(0, false).expose().is_empty());
    assert!(generate_password(0, true).expose().is_empty());
}

#[test]
fn special_symbols_only_when_asked() {
    let mut seen_special = false;
    for _ in 0..200 {
        let s = generate_password(40, true);
        assert_eq!(s.len(), 40);
        for b in s.expose() {
            assert!(is_base(*b) || is_special(*b));
            seen_special |= is_special(*b);
        }
    }
    assert!(seen_special);
}

#[test]
fn generated_passwords_vary() {
    let a = generate_password(32, false);
    let b = generate_password(32, false);
    assert_ne!(a.expose(), b.expose());
}

#[test]
fn symbol_table_entries() {
    assert_eq!(charset_symbol(0), b'Q');
    assert_eq!(charset_symbol(10), b'A');
    assert_eq!(charset_symbol(25), b'M');
    assert_eq!(charset_symbol(26), b'q');
    assert_eq!(charset_symbol(51), b'm');
    assert_eq!(charset_symbol(52), b'1');
    assert_eq!(charset_symbol(61), b'0');
    assert_eq!(charset_symbol(62), b'!');
    assert_eq!(charset_symbol(67), b'^');
    assert_eq!(charset_symbol(69), b'*');
}

#[test]
fn symbol_table_has_seventy_distinct_symbols() {
    let mut all: Vec<u8> = (0..70).map(charset_symbol).collect();
    assert_eq!(
        &all[..],
        &b"QWERTYUIOPASDFGHJKLZXCVBNMqwertyuiopasdfghjklzxcvbnm1234567890!@#$%^&*"[..]
    );
    assert!(all[..62].iter().all(|b| is_base(*b)));
    assert!(all[62..].iter().all(|b| is_special(*b)));
    all.sort();
    all.dedup();
    assert_eq!(all.len(), 70);
}

#[test]
fn password_from_chosen_indices() {
    let s = password_from_indices(&vec![7, 26, 52, 69, 0]);
    assert_eq!(s.expose(), b"Iq1*Q");
}
