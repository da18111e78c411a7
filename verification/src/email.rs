//! Syntactic validation of e-mail addresses.
//!
//! An address is accepted exactly when it has the shape `local@domain.tld`:
//! a non-empty local part of ASCII letters, digits and `. _ % + -`, one `@`,
//! a non-empty domain part of ASCII letters, digits, dots and hyphens, a
//! final dot, and a top-level label of at least two ASCII letters.

use vstd::prelude::*;

verus! {

/// An ASCII letter, upper or lower case.
pub open spec fn is_ascii_letter(c: char) -> bool {
    (97 <= c as u32 && c as u32 <= 122) || (65 <= c as u32 && c as u32 <= 90)
}

/// An ASCII decimal digit.
pub open spec fn is_ascii_digit(c: char) -> bool {
    48 <= c as u32 && c as u32 <= 57
}

/// A character allowed in the local part, before the `@`.
pub open spec fn is_local_char(c: char) -> bool {
    is_ascii_letter(c) || is_ascii_digit(c) || c == '.' || c == '_' || c == '%' || c == '+'
        || c == '-'
}

/// A character allowed in the domain part, between the `@` and the last dot.
pub open spec fn is_domain_char(c: char) -> bool {
    is_ascii_letter(c) || is_ascii_digit(c) || c == '.' || c == '-'
}

/// The address `s` decomposes at positions `i` (the `@`) and `j` (the last
/// dot): non-empty local part before `i`, non-empty domain part strictly
/// between `i` and `j`, and at least two letters after `j`.
pub open spec fn email_split_at(s: Seq<char>, i: int, j: int) -> bool {
    &&& 1 <= i
    &&& i + 2 <= j
    &&& j + 3 <= s.len()
    &&& s[i] == '@'
    &&& s[j] == '.'
    &&& forall|k: int| 0 <= k < i ==> is_local_char(#[trigger] s[k])
    &&& forall|k: int| i < k < j ==> is_domain_char(#[trigger] s[k])
    &&& forall|k: int| j < k < s.len() ==> is_ascii_letter(#[trigger] s[k])
}

/// A syntactically valid e-mail address: some decomposition fits.
pub open spec fn valid_email(s: Seq<char>) -> bool {
    exists|i: int, j: int| email_split_at(s, i, j)
}

fn ascii_letter_char(c: char) -> (r: bool)
    ensures
        r == is_ascii_letter(c),
{
    let u = c as u32;
    (97 <= u && u <= 122) || (65 <= u && u <= 90)
}

fn ascii_digit_char(c: char) -> (r: bool)
    ensures
        r == is_ascii_digit(c),
{
    let u = c as u32;
    48 <= u && u <= 57
}

fn local_char(c: char) -> (r: bool)
    ensures
        r == is_local_char(c),
{
    ascii_letter_char(c) || ascii_digit_char(c) || c == '.' || c == '_' || c == '%' || c == '+'
        || c == '-'
}

fn domain_char(c: char) -> (r: bool)
    ensures
        r == is_domain_char(c),
{
    ascii_letter_char(c) || ascii_digit_char(c) || c == '.' || c == '-'
}

/// Index of the first character that is not a local-part character, or the
/// length when every character is one.
fn first_nonlocal(email: &str) -> (i: usize)
    ensures
        i <= email@.len(),
        forall|k: int| 0 <= k < i ==> is_local_char(#[trigger] email@[k]),
        i < email@.len() ==> !is_local_char(email@[i as int]),
{
    let n = email.unicode_len();
    let mut i: usize = 0;
    while i < n
        invariant
            i <= n,
            n == email@.len(),
            forall|k: int| 0 <= k < i ==> is_local_char(#[trigger] email@[k]),
        decreases n - i,
    {
        let c = email.get_char(i);
        if !local_char(c) {
            return i;
        }
        i = i + 1;
    }
    i
}

/// Position of the last dot strictly after `from`, if there is one.
fn last_dot_after(email: &str, from: usize) -> (r: Option<usize>)
    requires
        from < email@.len(),
    ensures
        match r {
            Some(j) => from < j && j < email@.len() && email@[j as int] == '.' && forall|k: int|
                j < k < email@.len() ==> #[trigger] email@[k] != '.',
            None => forall|k: int| from < k < email@.len() ==> #[trigger] email@[k] != '.',
        },
{
    let n = email.unicode_len();
    let mut k: usize = n;
    while k > from + 1
        invariant
            from + 1 <= k <= n,
            n == email@.len(),
            forall|t: int| k <= t < n ==> #[trigger] email@[t] != '.',
        decreases k,
    {
        k = k - 1;
        let c = email.get_char(k);
        if c == '.' {
            return Some(k);
        }
    }
    None
}

/// Whether every character in `[from, to)` is a domain-part character.
fn range_all_domain(email: &str, from: usize, to: usize) -> (r: bool)
    requires
        from <= to,
        to <= email@.len(),
    ensures
        r == (forall|k: int| from <= k < to ==> is_domain_char(#[trigger] email@[k])),
{
    let mut i: usize = from;
    while i < to
        invariant
            from <= i <= to,
            to <= email@.len(),
            forall|k: int| from <= k < i ==> is_domain_char(#[trigger] email@[k]),
        decreases to - i,
    {
        let c = email.get_char(i);
        if !domain_char(c) {
            return false;
        }
        i = i + 1;
    }
    true
}

/// Whether every character in `[from, to)` is an ASCII letter.
fn range_all_letters(email: &str, from: usize, to: usize) -> (r: bool)
    requires
        from <= to,
        to <= email@.len(),
    ensures
        r == (forall|k: int| from <= k < to ==> is_ascii_letter(#[trigger] email@[k])),
{
    let mut i: usize = from;
    while i < to
        invariant
            from <= i <= to,
            to <= email@.len(),
            forall|k: int| from <= k < i ==> is_ascii_letter(#[trigger] email@[k]),
        decreases to - i,
    {
        let c = email.get_char(i);
        if !ascii_letter_char(c) {
            return false;
        }
        i = i + 1;
    }
    true
}

/// Any decomposition of `s` must place its `@` at the first non-local
/// position and its dot at the last dot of the string.
proof fn lemma_split_pinned(s: Seq<char>, i: int, j: int, i0: int, j0: int)
    requires
        email_split_at(s, i0, j0),
        0 < i < s.len(),
        s[i] == '@',
        forall|k: int| 0 <= k < i ==> is_local_char(#[trigger] s[k]),
        i < j < s.len(),
        s[j] == '.',
        forall|k: int| j < k < s.len() ==> #[trigger] s[k] != '.',
    ensures
        i0 == i,
        j0 == j,
{
    assert(!is_local_char('@'));
    assert(!is_ascii_letter('.'));
    if i0 < i {
        assert(is_local_char(s[i0]));
        assert(false);
    }
    if i0 > i {
        assert(is_local_char(s[i]));
        assert(false);
    }
    if j0 < j {
        assert(is_ascii_letter(s[j]));
        assert(false);
    }
    if j0 > j {
        assert(s[j0] != '.');
        assert(false);
    }
}

/// Decides whether `email` is a syntactically valid address.
pub fn is_valid_email(email: &str) -> (r: bool)
    ensures
        r == valid_email(email@),
{
    let n = email.unicode_len();
    let i = first_nonlocal(email);
    if i == 0 || i >= n {
        proof {
            assert(!valid_email(email@)) by {
                if valid_email(email@) {
                    let (i0, j0) = choose|i0: int, j0: int| email_split_at(email@, i0, j0);
                    assert(!is_local_char('@'));
                    assert(i0 + 5 <= email@.len());
                    if i >= n {
                        assert(is_local_char(email@[i0]));
                    } else {
                        assert(is_local_char(email@[0]));
                    }
                    assert(false);
                }
            }
        }
        return false;
    }
    let at = email.get_char(i);
    if at != '@' {
        proof {
            assert(!valid_email(email@)) by {
                if valid_email(email@) {
                    let (i0, j0) = choose|i0: int, j0: int| email_split_at(email@, i0, j0);
                    assert(!is_local_char('@'));
                    if i0 < i {
                        assert(is_local_char(email@[i0]));
                    }
                    if i0 > i {
                        assert(is_local_char(email@[i as int]));
                    }
                    assert(false);
                }
            }
        }
        return false;
    }
    let dot = last_dot_after(email, i);
    match dot {
        None => {
            proof {
                assert(!valid_email(email@)) by {
                    if valid_email(email@) {
                        let (i0, j0) = choose|i0: int, j0: int| email_split_at(email@, i0, j0);
                        assert(!is_local_char('@'));
                        if i0 < i {
                            assert(is_local_char(email@[i0]));
                        }
                        if i0 > i {
                            assert(is_local_char(email@[i as int]));
                        }
                        assert(i0 == i);
                        assert(email@[j0] == '.');
                        assert(false);
                    }
                }
            }
            false
        },
        Some(j) => {
            if j - i < 2 || n - (j + 1) < 2 {
                proof {
                    assert(!valid_email(email@)) by {
                        if valid_email(email@) {
                            let (i0, j0) = choose|i0: int, j0: int|
                                email_split_at(email@, i0, j0);
                            lemma_split_pinned(email@, i as int, j as int, i0, j0);
                            assert(false);
                        }
                    }
                }
                return false;
            }
            let domain_ok = range_all_domain(email, i + 1, j);
            let tld_ok = range_all_letters(email, j + 1, n);
            if domain_ok && tld_ok {
                proof {
                    assert(email_split_at(email@, i as int, j as int));
                }
                true
            } else {
                proof {
                    assert(!valid_email(email@)) by {
                        if valid_email(email@) {
                            let (i0, j0) = choose|i0: int, j0: int|
                                email_split_at(email@, i0, j0);
                            lemma_split_pinned(email@, i as int, j as int, i0, j0);
                            assert(false);
                        }
                    }
                }
                false
            }
        },
    }
}

} // verus!
