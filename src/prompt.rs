use vstd::prelude::*;

use crate::error::StoreError;
use crate::secret::Secret;

verus! {

/// Unicode white space, as `char::is_whitespace` classifies it.
pub open spec fn is_white_space(c: char) -> bool {
    ('\u{9}' <= c <= '\u{d}') || c == ' ' || c == '\u{85}' || c == '\u{a0}' || c == '\u{1680}'
        || ('\u{2000}' <= c <= '\u{200a}') || c == '\u{2028}' || c == '\u{2029}' || c
        == '\u{202f}' || c == '\u{205f}' || c == '\u{3000}'
}

/// `s` without its leading white space.
pub open spec fn trim_front(s: Seq<char>) -> Seq<char>
    decreases s.len(),
{
    if s.len() > 0 && is_white_space(s[0]) {
        trim_front(s.drop_first())
    } else {
        s
    }
}

/// `s` without its trailing white space.
pub open spec fn trim_back(s: Seq<char>) -> Seq<char>
    decreases s.len(),
{
    if s.len() > 0 && is_white_space(s.last()) {
        trim_back(s.drop_last())
    } else {
        s
    }
}

/// `s` without leading or trailing white space.
pub open spec fn trimmed(s: Seq<char>) -> Seq<char> {
    trim_back(trim_front(s))
}

/// An answer that accepts the question asked: `y` or `Y`, once trimmed.
pub open spec fn is_yes(answer: Seq<char>) -> bool {
    trimmed(answer) == seq!['y'] || trimmed(answer) == seq!['Y']
}

/// An ASCII decimal digit.
pub open spec fn is_digit(c: char) -> bool {
    '0' <= c <= '9'
}

/// A non-empty run of decimal digits.
pub open spec fn is_numeral(s: Seq<char>) -> bool {
    s.len() > 0 && forall|i: int| 0 <= i < s.len() ==> is_digit(#[trigger] s[i])
}

/// The value of a run of decimal digits, most significant first.
pub open spec fn numeral_value(s: Seq<char>) -> nat
    decreases s.len(),
{
    if s.len() == 0 {
        0
    } else {
        numeral_value(s.drop_last()) * 10 + ((s.last() as u32 - '0' as u32) as nat)
    }
}

/// The digits of a numeral that may carry one leading `+` sign.
pub open spec fn unsigned_digits(t: Seq<char>) -> Seq<char> {
    if t.len() > 0 && t[0] == '+' {
        t.drop_first()
    } else {
        t
    }
}

/// The length that an answer asks for, when it names a positive integer that
/// fits in `usize`, written in decimal with an optional leading `+`.
pub open spec fn requested_length(answer: Seq<char>) -> Option<nat> {
    let t = unsigned_digits(trimmed(answer));
    if is_numeral(t) && 0 < numeral_value(t) <= usize::MAX {
        Some(numeral_value(t))
    } else {
        None
    }
}

proof fn lemma_trim_front_step(s: Seq<char>, i: int)
    requires
        0 <= i < s.len(),
        is_white_space(s[i]),
    ensures
        trim_front(s.subrange(i, s.len() as int)) == trim_front(s.subrange(i + 1, s.len() as int)),
{
    let t = s.subrange(i, s.len() as int);
    assert(t.drop_first() =~= s.subrange(i + 1, s.len() as int));
}

proof fn lemma_trim_back_step(s: Seq<char>, j: int)
    requires
        0 < j <= s.len(),
        is_white_space(s[j - 1]),
    ensures
        trim_back(s.subrange(0, j)) == trim_back(s.subrange(0, j - 1)),
{
    let t = s.subrange(0, j);
    assert(t.drop_last() =~= s.subrange(0, j - 1));
}

/// `s` with leading and trailing white space removed.
pub fn trim(s: &str) -> (r: &str)
    ensures
        r@ == trimmed(s@),
{
    let n = s.unicode_len();
    let mut a: usize = 0;
    assert(s@.subrange(0, n as int) =~= s@);
    while a < n && is_white_space_char(s.get_char(a))
        invariant
            n == s@.len(),
            a <= n,
            trim_front(s@) == trim_front(s@.subrange(a as int, n as int)),
        decreases n - a,
    {
        proof {
            lemma_trim_front_step(s@, a as int);
        }
        a = a + 1;
    }
    assert(s@.subrange(0, n as int) =~= s@);
    let front = s.substring_char(a, n);
    assert(front@ == trim_front(s@));
    let m = n - a;
    let mut e: usize = m;
    assert(front@.subrange(0, m as int) =~= front@);
    while e > 0 && is_white_space_char(front.get_char(e - 1))
        invariant
            m == front@.len(),
            e <= m,
            trim_back(front@) == trim_back(front@.subrange(0, e as int)),
        decreases e,
    {
        proof {
            lemma_trim_back_step(front@, e as int);
        }
        e = e - 1;
    }
    let r = front.substring_char(0, e);
    r
}

/// Whether `c` is white space.
fn is_white_space_char(c: char) -> (r: bool)
    ensures
        r == is_white_space(c),
{
    ('\u{9}' <= c && c <= '\u{d}') || c == ' ' || c == '\u{85}' || c == '\u{a0}' || c == '\u{1680}'
        || ('\u{2000}' <= c && c <= '\u{200a}') || c == '\u{2028}' || c == '\u{2029}' || c
        == '\u{202f}' || c == '\u{205f}' || c == '\u{3000}'
}

/// Whether an answer to a yes-or-no question accepts it.
pub fn answer_is_yes(answer: &str) -> (r: bool)
    ensures
        r == is_yes(answer@),
{
    let t = trim(answer);
    if t.unicode_len() != 1 {
        return false;
    }
    let c = t.get_char(0);
    if c == 'y' || c == 'Y' {
        assert(t@ =~= seq![c]);
        true
    } else {
        false
    }
}

proof fn lemma_numeral_value_grows(s: Seq<char>, k: int)
    requires
        0 <= k <= s.len(),
        forall|i: int| 0 <= i < s.len() ==> is_digit(#[trigger] s[i]),
    ensures
        numeral_value(s.subrange(0, k)) <= numeral_value(s),
    decreases s.len() - k,
{
    if k < s.len() {
        let t = s.subrange(0, k + 1);
        assert(t.drop_last() =~= s.subrange(0, k));
        assert(t.last() == s[k]);
        lemma_numeral_value_grows(s, k + 1);
    } else {
        assert(s.subrange(0, k) =~= s);
    }
}

/// The password length that an answer asks for; anything but a positive
/// integer that fits in `usize`, with an optional leading `+`, is refused.
pub fn parse_length(answer: &str) -> (r: Result<usize, StoreError>)
    ensures
        match requested_length(answer@) {
            Some(n) => r == Ok::<usize, StoreError>(n as usize),
            None => r == Err::<usize, StoreError>(StoreError::InvalidLength),
        },
{
    let trimmed_answer = trim(answer);
    let whole = trimmed_answer.unicode_len();
    let t = if whole > 0 && trimmed_answer.get_char(0) == '+' {
        trimmed_answer.substring_char(1, whole)
    } else {
        trimmed_answer
    };
    assert(t@ =~= unsigned_digits(trimmed(answer@)));
    let n = t.unicode_len();
    if n == 0 {
        return Err(StoreError::InvalidLength);
    }
    let mut k: usize = 0;
    while k < n
        invariant
            t@ == unsigned_digits(trimmed(answer@)),
            n == t@.len(),
            k <= n,
            forall|i: int| 0 <= i < k ==> is_digit(#[trigger] t@[i]),
        decreases n - k,
    {
        let c = t.get_char(k);
        if !('0' <= c && c <= '9') {
            assert(!is_digit(t@[k as int]));
            return Err(StoreError::InvalidLength);
        }
        k = k + 1;
    }
    let mut value: usize = 0;
    let mut k: usize = 0;
    while k < n
        invariant
            t@ == unsigned_digits(trimmed(answer@)),
            n == t@.len(),
            k <= n,
            is_numeral(t@),
            value == numeral_value(t@.subrange(0, k as int)),
        decreases n - k,
    {
        let c = t.get_char(k);
        let d = (c as u32 - '0' as u32) as usize;
        let ghost next = t@.subrange(0, k + 1);
        assert(next.drop_last() =~= t@.subrange(0, k as int));
        assert(next.last() == c);
        assert(numeral_value(next) == value * 10 + d);
        if value > (usize::MAX - d) / 10 {
            proof {
                assert(value * 10 + d > usize::MAX) by (nonlinear_arith)
                    requires
                        value > (usize::MAX - d) / 10,
                        d <= 9,
                ;
                lemma_numeral_value_grows(t@, k + 1);
            }
            return Err(StoreError::InvalidLength);
        }
        proof {
            assert(value * 10 + d <= usize::MAX) by (nonlinear_arith)
                requires
                    value <= (usize::MAX - d) / 10,
                    d <= 9,
            ;
        }
        value = value * 10 + d;
        k = k + 1;
    }
    assert(t@.subrange(0, n as int) =~= t@);
    if value == 0 {
        return Err(StoreError::InvalidLength);
    }
    Ok(value)
}

/// A secret entered twice: the first entry when both agree; otherwise both
/// are wiped and the mismatch is reported, so that the caller can ask again.
pub fn confirm_secret(first: Secret, second: Secret) -> (r: Result<Secret, StoreError>)
    ensures
        first@ == second@ ==> (r matches Ok(s) && s@ == first@),
        first@ != second@ ==> (r matches Err(e) && e == StoreError::SecretMismatch),
{
    let mut first = first;
    let mut second = second;
    if first.same_as(&second) {
        second.wipe();
        Ok(first)
    } else {
        first.wipe();
        second.wipe();
        Err(StoreError::SecretMismatch)
    }
}

} // verus!
