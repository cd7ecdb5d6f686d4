use rand::Rng;
use vstd::prelude::*;

use crate::secret::Secret;

verus! {

/// The number of symbols drawn from when special characters are left out:
/// upper- and lower-case Latin letters and digits.
pub const BASE_SYMBOLS: usize = 62;

/// The number of symbols drawn from when special characters are included.
pub const ALL_SYMBOLS: usize = 70;

/// The size of the symbol set in use.
pub open spec fn charset_len(include_special: bool) -> nat {
    if include_special {
        ALL_SYMBOLS as nat
    } else {
        BASE_SYMBOLS as nat
    }
}

/// An ASCII letter or digit.
pub open spec fn is_base_symbol(b: u8) -> bool {
    (65 <= b <= 90) || (97 <= b <= 122) || (48 <= b <= 57)
}

/// One of the special characters `!@#$%^&*`.
pub open spec fn is_special_symbol(b: u8) -> bool {
    b == 33 || b == 64 || b == 35 || b == 36 || b == 37 || b == 94 || b == 38 || b == 42
}

/// A symbol of the set in use.
pub open spec fn in_charset(b: u8, include_special: bool) -> bool {
    is_base_symbol(b) || (include_special && is_special_symbol(b))
}

/// The symbol table, as ASCII codes:
/// `QWERTYUIOPASDFGHJKLZXCVBNMqwertyuiopasdfghjklzxcvbnm1234567890` (the
/// letters in keyboard order, then the digits), followed by `!@#$%^&*`.
pub open spec fn symbol_table() -> Seq<u8> {
    seq![
        81u8, 87, 69, 82, 84, 89, 85, 73, 79, 80, 65, 83, 68, 70,
        71, 72, 74, 75, 76, 90, 88, 67, 86, 66, 78, 77, 113, 119,
        101, 114, 116, 121, 117, 105, 111, 112, 97, 115, 100, 102, 103, 104,
        106, 107, 108, 122, 120, 99, 118, 98, 110, 109, 49, 50, 51, 52,
        53, 54, 55, 56, 57, 48, 33, 64, 35, 36, 37, 94, 38, 42
    ]
}

/// The symbol at `index` of the symbol table.
pub open spec fn symbol_at(index: int) -> u8 {
    symbol_table()[index]
}

/// The first `charset_len(include_special)` entries of the symbol table are
/// exactly the symbols of the set in use.
pub proof fn lemma_symbol_table_in_charset(index: int, include_special: bool)
    requires
        0 <= index < charset_len(include_special),
    ensures
        in_charset(symbol_at(index), include_special),
{
}

/// The symbol at `index` of the symbol table.
pub fn charset_symbol(index: usize) -> (b: u8)
    requires
        index < ALL_SYMBOLS,
    ensures
        b == symbol_at(index as int),
{
    match index {
        0 => 81,
        1 => 87,
        2 => 69,
        3 => 82,
        4 => 84,
        5 => 89,
        6 => 85,
        7 => 73,
        8 => 79,
        9 => 80,
        10 => 65,
        11 => 83,
        12 => 68,
        13 => 70,
        14 => 71,
        15 => 72,
        16 => 74,
        17 => 75,
        18 => 76,
        19 => 90,
        20 => 88,
        21 => 67,
        22 => 86,
        23 => 66,
        24 => 78,
        25 => 77,
        26 => 113,
        27 => 119,
        28 => 101,
        29 => 114,
        30 => 116,
        31 => 121,
        32 => 117,
        33 => 105,
        34 => 111,
        35 => 112,
        36 => 97,
        37 => 115,
        38 => 100,
        39 => 102,
        40 => 103,
        41 => 104,
        42 => 106,
        43 => 107,
        44 => 108,
        45 => 122,
        46 => 120,
        47 => 99,
        48 => 118,
        49 => 98,
        50 => 110,
        51 => 109,
        52 => 49,
        53 => 50,
        54 => 51,
        55 => 52,
        56 => 53,
        57 => 54,
        58 => 55,
        59 => 56,
        60 => 57,
        61 => 48,
        62 => 33,
        63 => 64,
        64 => 35,
        65 => 36,
        66 => 37,
        67 => 94,
        68 => 38,
        _ => 42,
    }
}

/// Relies on rand's `thread_rng` and `Rng::gen_range`: a value drawn uniformly
/// from `0..bound`; `gen_range` panics on an empty range.
#[verifier::external_body]
fn random_below(bound: usize) -> (r: usize)
    requires
        bound > 0,
    ensures
        r < bound,
{
    rand::thread_rng().gen_range(0..bound)
}

/// The password whose symbols are the table entries at `indices`.
pub fn password_from_indices(indices: &Vec<usize>) -> (s: Secret)
    requires
        forall|i: int| 0 <= i < indices@.len() ==> #[trigger] indices@[i] < ALL_SYMBOLS,
    ensures
        s@.len() == indices@.len(),
        forall|i: int| 0 <= i < indices@.len() ==> s@[i] == symbol_at(#[trigger] indices@[i] as int),
{
    let mut bytes: Vec<u8> = Vec::new();
    let mut k: usize = 0;
    while k < indices.len()
        invariant
            k <= indices@.len(),
            forall|i: int| 0 <= i < indices@.len() ==> #[trigger] indices@[i] < ALL_SYMBOLS,
            bytes@.len() == k,
            forall|i: int| 0 <= i < k ==> bytes@[i] == symbol_at(#[trigger] indices@[i] as int),
        decreases indices@.len() - k,
    {
        bytes.push(charset_symbol(indices[k]));
        k = k + 1;
    }
    Secret::new(bytes)
}

/// A random password of `length` symbols, each drawn independently from the
/// letters and digits, and from the special characters too when
/// `include_special` is set. A length of zero gives an empty password.
pub fn generate_password(length: usize, include_special: bool) -> (s: Secret)
    ensures
        s@.len() == length,
        forall|i: int| 0 <= i < length ==> in_charset(#[trigger] s@[i], include_special),
{
    let bound = if include_special {
        ALL_SYMBOLS
    } else {
        BASE_SYMBOLS
    };
    let mut indices: Vec<usize> = Vec::new();
    let mut k: usize = 0;
    while k < length
        invariant
            k <= length,
            bound == charset_len(include_special),
            indices@.len() == k,
            forall|i: int| 0 <= i < k ==> #[trigger] indices@[i] < bound,
        decreases length - k,
    {
        indices.push(random_below(bound));
        k = k + 1;
    }
    let s = password_from_indices(&indices);
    proof {
        assert forall|i: int| 0 <= i < length implies in_charset(#[trigger] s@[i], include_special) by {
            lemma_symbol_table_in_charset(indices@[i] as int, include_special);
        }
    }
    s
}

} // verus!
