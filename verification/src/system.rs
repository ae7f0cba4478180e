//! What the library takes from outside: digests, encodings, random values
//! and the properties of the machine. The contracts of the functions in
//! this file are taken on trust.

use vstd::prelude::*;

verus! {

/// The SHA-256 digest of a byte string.
pub uninterp spec fn sha256(data: Seq<u8>) -> Seq<u8>;

/// The MD5 digest of a byte string.
pub uninterp spec fn md5(data: Seq<u8>) -> Seq<u8>;

/// The text of a byte string in base64, standard alphabet, padded.
pub uninterp spec fn base64(data: Seq<u8>) -> Seq<char>;

/// Whether a text spells a UUID, in any of the forms that are read.
pub uninterp spec fn is_uuid(text: Seq<char>) -> bool;

/// What a search for a regular expression in a text comes to: `None` where
/// the pattern is refused as malformed or as too large, else whether the
/// pattern matches somewhere in the text. Patterns are written as the
/// crate `regex` reads them.
pub uninterp spec fn regex_outcome(pattern: Seq<char>, text: Seq<char>) -> Option<bool>;

/// `regex::Regex::new` on the pattern and, where that gives a regular
/// expression, `regex::Regex::is_match` on it and the text. Both depend on
/// their arguments alone, so the outcome is a function of pattern and
/// text; nothing more is claimed of it.
#[verifier::external_body]
pub(crate) fn regex_search(pattern: &str, text: &str) -> (r: Option<bool>)
    ensures
        r == regex_outcome(pattern@, text@),
{
    match regex::Regex::new(pattern) {
        Ok(re) => Some(re.is_match(text)),
        Err(_) => None,
    }
}

/// `sha2::Sha256::digest`: the digest depends on the bytes alone and is 32
/// bytes long.
#[verifier::external_body]
pub(crate) fn sha256_digest(data: &[u8]) -> (r: Vec<u8>)
    ensures
        r@ == sha256(data@),
        r@.len() == 32,
{
    <sha2::Sha256 as sha2::Digest>::digest(data).to_vec()
}

/// `md5::compute`: the digest depends on the bytes alone and is 16 bytes
/// long.
#[verifier::external_body]
pub(crate) fn md5_digest(data: &[u8]) -> (r: Vec<u8>)
    ensures
        r@ == md5(data@),
        r@.len() == 16,
{
    md5::compute(data).0.to_vec()
}

/// `base64::Engine::encode` of the standard engine: the text depends on
/// the bytes alone. The bytes have to be few enough for the length of the
/// text to be a `usize`.
#[verifier::external_body]
pub(crate) fn base64_encode(data: &[u8]) -> (r: String)
    requires
        data@.len() <= 0x3fff_ffff,
    ensures
        r@ == base64(data@),
{
    base64::Engine::encode(&base64::engine::general_purpose::STANDARD, data)
}

/// `uuid::Uuid::parse_str`: whether it succeeds depends on the text alone.
#[verifier::external_body]
pub(crate) fn parse_uuid(text: &str) -> (r: bool)
    ensures
        r == is_uuid(text@),
{
    uuid::Uuid::parse_str(text).is_ok()
}

/// `uuid::Uuid::new_v4`, written with hyphens: a random UUID, which is 36
/// characters long in that form. Nothing else is known of it.
#[verifier::external_body]
pub(crate) fn random_uuid() -> (r: String)
    ensures
        r@.len() == 36,
{
    uuid::Uuid::new_v4().to_string()
}

/// `rand::Rng::gen` on the generator of the thread: sixteen random bytes.
/// Nothing is known of them.
#[verifier::external_body]
pub(crate) fn random_bytes() -> (r: [u8; 16])
{
    rand::Rng::gen(&mut rand::thread_rng())
}

/// `num_cpus::get`: the number of processors that the machine offers.
/// Nothing is known of it.
#[verifier::external_body]
pub(crate) fn cpu_count() -> (r: usize)
{
    num_cpus::get()
}

/// `core::time::Duration::from_secs`: a duration of whole seconds.
pub assume_specification[ core::time::Duration::from_secs ](secs: u64) -> (r: core::time::Duration);

/// `core::time::Duration::from_millis`: a duration of whole milliseconds.
pub assume_specification[ core::time::Duration::from_millis ](millis: u64) -> (r:
    core::time::Duration);

/// `Duration::clone`: a copy of a duration.
pub assume_specification[ <core::time::Duration as Clone>::clone ](d: &core::time::Duration) -> (r:
    core::time::Duration);

/// The character of a hexadecimal digit, lower case.
pub open spec fn hex_char(d: int) -> char {
    if d < 10 {
        (48 + d) as char
    } else {
        (87 + d) as char
    }
}

/// The text of a byte string in hexadecimal: two lower-case digits for
/// each byte.
pub open spec fn hex_text(b: Seq<u8>) -> Seq<char>
    decreases b.len(),
{
    if b.len() == 0 {
        Seq::empty()
    } else {
        hex_text(b.drop_last()).push(hex_char(b.last() as int / 16)).push(
            hex_char(b.last() as int % 16),
        )
    }
}

/// The text of one hexadecimal digit.
pub fn hex_digit(d: u8) -> (r: &'static str)
    requires
        d < 16,
    ensures
        r@ == seq![hex_char(d as int)],
{
    proof {
        reveal_strlit("0");
        reveal_strlit("1");
        reveal_strlit("2");
        reveal_strlit("3");
        reveal_strlit("4");
        reveal_strlit("5");
        reveal_strlit("6");
        reveal_strlit("7");
        reveal_strlit("8");
        reveal_strlit("9");
        reveal_strlit("a");
        reveal_strlit("b");
        reveal_strlit("c");
        reveal_strlit("d");
        reveal_strlit("e");
        reveal_strlit("f");
    }
    let r = if d == 0 {
        "0"
    } else if d == 1 {
        "1"
    } else if d == 2 {
        "2"
    } else if d == 3 {
        "3"
    } else if d == 4 {
        "4"
    } else if d == 5 {
        "5"
    } else if d == 6 {
        "6"
    } else if d == 7 {
        "7"
    } else if d == 8 {
        "8"
    } else if d == 9 {
        "9"
    } else if d == 10 {
        "a"
    } else if d == 11 {
        "b"
    } else if d == 12 {
        "c"
    } else if d == 13 {
        "d"
    } else if d == 14 {
        "e"
    } else {
        "f"
    };
    assert(r@ =~= seq![hex_char(d as int)]);
    r
}

/// The text of a byte string in hexadecimal.
pub fn to_hex(b: &[u8]) -> (r: String)
    ensures
        r@ == hex_text(b@),
{
    let mut out = String::new();
    let mut i: usize = 0;
    while i < b.len()
        invariant
            i <= b.len(),
            out@ == hex_text(b@.take(i as int)),
        decreases b.len() - i,
    {
        proof {
            assert(b@.take(i + 1).drop_last() =~= b@.take(i as int));
            assert(b@.take(i + 1).last() == b@[i as int]);
        }
        let ghost before = out@;
        out.append(hex_digit(b[i] / 16));
        out.append(hex_digit(b[i] % 16));
        assert(out@ =~= before.push(hex_char(b@[i as int] as int / 16)).push(
            hex_char(b@[i as int] as int % 16),
        ));
        i = i + 1;
    }
    assert(b@.take(b@.len() as int) =~= b@);
    out
}

} // verus!
