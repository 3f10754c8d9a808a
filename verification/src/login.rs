//! Syntactic validation of a claimed login handle.

use vstd::prelude::*;
use crate::text::chars_of;

verus! {

/// Longest handle that is accepted, in characters.
pub const MAX_LOGIN_LEN: usize = 39;

/// ASCII letter or digit.
pub open spec fn is_alnum(c: char) -> bool {
    ('0' <= c && c <= '9') || ('a' <= c && c <= 'z') || ('A' <= c && c <= 'Z')
}

/// A well-formed handle: one to thirty-nine characters, the first an ASCII
/// letter or digit, every later one an ASCII letter, a digit or a hyphen.
pub open spec fn valid_login(s: Seq<char>) -> bool {
    &&& 0 < s.len() <= 39
    &&& is_alnum(s[0])
    &&& forall|i: int| 1 <= i < s.len() ==> is_alnum(#[trigger] s[i]) || s[i] == '-'
}

/// Executable form of [`is_alnum`].
pub fn is_ascii_alphanumeric(c: char) -> (b: bool)
    ensures
        b == is_alnum(c),
{
    ('0' <= c && c <= '9') || ('a' <= c && c <= 'z') || ('A' <= c && c <= 'Z')
}

/// Tells whether `github_login` is a well-formed handle.
pub fn is_valid_github_login(github_login: &str) -> (b: bool)
    ensures
        b == valid_login(github_login@),
{
    let n: usize = github_login.unicode_len();
    if n == 0 || n > MAX_LOGIN_LEN {
        return false;
    }
    let chars = chars_of(github_login);
    if !is_ascii_alphanumeric(chars[0]) {
        return false;
    }
    let mut i: usize = 1;
    while i < n
        invariant
            1 <= i <= n,
            n == github_login@.len(),
            chars@ == github_login@,
            forall|j: int| 1 <= j < i ==> is_alnum(#[trigger] github_login@[j]) || github_login@[j] == '-',
        decreases n - i,
    {
        let c = chars[i];
        if !(is_ascii_alphanumeric(c) || c == '-') {
            return false;
        }
        i += 1;
    }
    true
}

} // verus!
