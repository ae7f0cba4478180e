//! Classes of characters, as the standard library tells them apart.

use vstd::prelude::*;

verus! {

/// Whether the standard library counts a character as an uppercase letter.
pub uninterp spec fn is_uppercase(c: char) -> bool;

/// Whether the standard library counts a character as a lowercase letter.
pub uninterp spec fn is_lowercase(c: char) -> bool;

/// Whether the standard library counts a character as numeric.
pub uninterp spec fn is_numeric(c: char) -> bool;

/// Whether the standard library counts a character as a letter or as
/// numeric.
pub uninterp spec fn is_alphanumeric(c: char) -> bool;

/// `char::is_uppercase`: the answer depends on the character alone.
#[verifier::external_body]
pub(crate) fn char_is_uppercase(c: char) -> (r: bool)
    ensures
        r == is_uppercase(c),
{
    c.is_uppercase()
}

/// `char::is_lowercase`: the answer depends on the character alone.
#[verifier::external_body]
pub(crate) fn char_is_lowercase(c: char) -> (r: bool)
    ensures
        r == is_lowercase(c),
{
    c.is_lowercase()
}

/// `char::is_numeric`: the answer depends on the character alone.
#[verifier::external_body]
pub(crate) fn char_is_numeric(c: char) -> (r: bool)
    ensures
        r == is_numeric(c),
{
    c.is_numeric()
}

/// `char::is_alphanumeric`: the answer depends on the character alone.
#[verifier::external_body]
pub(crate) fn char_is_alphanumeric(c: char) -> (r: bool)
    ensures
        r == is_alphanumeric(c),
{
    c.is_alphanumeric()
}

/// Whether some character of a text is an uppercase letter.
pub open spec fn any_uppercase(s: Seq<char>) -> bool {
    exists|i: int| 0 <= i < s.len() && is_uppercase(#[trigger] s[i])
}

/// Whether some character of a text is a lowercase letter.
pub open spec fn any_lowercase(s: Seq<char>) -> bool {
    exists|i: int| 0 <= i < s.len() && is_lowercase(#[trigger] s[i])
}

/// Whether some character of a text is numeric.
pub open spec fn any_numeric(s: Seq<char>) -> bool {
    exists|i: int| 0 <= i < s.len() && is_numeric(#[trigger] s[i])
}

/// Whether some character of a text is neither a letter nor numeric.
pub open spec fn any_other(s: Seq<char>) -> bool {
    exists|i: int| 0 <= i < s.len() && !is_alphanumeric(#[trigger] s[i])
}

/// Whether every character of a text is a letter, numeric, or one of the
/// characters of `extra`.
pub open spec fn all_alphanumeric_or(s: Seq<char>, extra: Seq<char>) -> bool {
    forall|i: int| 0 <= i < s.len() ==> is_alphanumeric(#[trigger] s[i]) || extra.contains(s[i])
}

/// Whether some character of a text is one of the characters of `set`.
pub open spec fn any_of(s: Seq<char>, set: Seq<char>) -> bool {
    exists|i: int| 0 <= i < s.len() && set.contains(#[trigger] s[i])
}

/// Whether some character of a text is an uppercase letter.
pub fn has_uppercase(s: &str) -> (r: bool)
    ensures
        r == any_uppercase(s@),
{
    let n = s.unicode_len();
    let mut i: usize = 0;
    while i < n
        invariant
            i <= n,
            n == s@.len(),
            forall|j: int| 0 <= j < i ==> !is_uppercase(#[trigger] s@[j]),
        decreases n - i,
    {
        if char_is_uppercase(s.get_char(i)) {
            return true;
        }
        i = i + 1;
    }
    false
}

/// Whether some character of a text is a lowercase letter.
pub fn has_lowercase(s: &str) -> (r: bool)
    ensures
        r == any_lowercase(s@),
{
    let n = s.unicode_len();
    let mut i: usize = 0;
    while i < n
        invariant
            i <= n,
            n == s@.len(),
            forall|j: int| 0 <= j < i ==> !is_lowercase(#[trigger] s@[j]),
        decreases n - i,
    {
        if char_is_lowercase(s.get_char(i)) {
            return true;
        }
        i = i + 1;
    }
    false
}

/// Whether some character of a text is numeric.
pub fn has_numeric(s: &str) -> (r: bool)
    ensures
        r == any_numeric(s@),
{
    let n = s.unicode_len();
    let mut i: usize = 0;
    while i < n
        invariant
            i <= n,
            n == s@.len(),
            forall|j: int| 0 <= j < i ==> !is_numeric(#[trigger] s@[j]),
        decreases n - i,
    {
        if char_is_numeric(s.get_char(i)) {
            return true;
        }
        i = i + 1;
    }
    false
}

/// Whether some character of a text is neither a letter nor numeric.
pub fn has_other(s: &str) -> (r: bool)
    ensures
        r == any_other(s@),
{
    let n = s.unicode_len();
    let mut i: usize = 0;
    while i < n
        invariant
            i <= n,
            n == s@.len(),
            forall|j: int| 0 <= j < i ==> is_alphanumeric(#[trigger] s@[j]),
        decreases n - i,
    {
        if !char_is_alphanumeric(s.get_char(i)) {
            return true;
        }
        i = i + 1;
    }
    false
}

/// Whether a character is one of the characters of `set`.
pub fn char_in(c: char, set: &str) -> (r: bool)
    ensures
        r == set@.contains(c),
{
    let n = set.unicode_len();
    let mut i: usize = 0;
    while i < n
        invariant
            i <= n,
            n == set@.len(),
            forall|j: int| 0 <= j < i ==> set@[j] != c,
        decreases n - i,
    {
        if set.get_char(i) == c {
            return true;
        }
        i = i + 1;
    }
    false
}

/// Whether some character of a text is one of the characters of `set`.
pub fn has_any_of(s: &str, set: &str) -> (r: bool)
    ensures
        r == any_of(s@, set@),
{
    let n = s.unicode_len();
    let mut i: usize = 0;
    while i < n
        invariant
            i <= n,
            n == s@.len(),
            forall|j: int| 0 <= j < i ==> !set@.contains(#[trigger] s@[j]),
        decreases n - i,
    {
        if char_in(s.get_char(i), set) {
            return true;
        }
        i = i + 1;
    }
    false
}

/// Whether every character of a text is a letter, numeric, or one of the
/// characters of `extra`.
pub fn only_alphanumeric_or(s: &str, extra: &str) -> (r: bool)
    ensures
        r == all_alphanumeric_or(s@, extra@),
{
    let n = s.unicode_len();
    let mut i: usize = 0;
    while i < n
        invariant
            i <= n,
            n == s@.len(),
            forall|j: int|
                0 <= j < i ==> is_alphanumeric(#[trigger] s@[j]) || extra@.contains(s@[j]),
        decreases n - i,
    {
        let c = s.get_char(i);
        if !char_is_alphanumeric(c) && !char_in(c, extra) {
            return false;
        }
        i = i + 1;
    }
    true
}

} // verus!
