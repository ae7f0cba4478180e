//! Decimal text of integers and small helpers on strings.

use vstd::prelude::*;
use vstd::utf8::encode_utf8;

verus! {

/// The character of a decimal digit.
pub open spec fn digit_char(d: int) -> char {
    (48 + d) as char
}

/// The decimal digits of `n`, most significant first, without leading zeros.
pub open spec fn decimal(n: nat) -> Seq<char>
    decreases n,
{
    if n < 10 {
        seq![digit_char(n as int)]
    } else {
        decimal(n / 10).push(digit_char((n % 10) as int))
    }
}

/// The decimal text of an integer, with a leading minus sign where negative.
pub open spec fn signed_decimal(i: int) -> Seq<char> {
    if i < 0 {
        seq!['-'] + decimal((-i) as nat)
    } else {
        decimal(i as nat)
    }
}

/// Every character of a decimal text is a digit.
pub proof fn lemma_decimal_digits(n: nat)
    ensures
        decimal(n).len() >= 1,
        forall|i: int| 0 <= i < decimal(n).len() ==> '0' <= #[trigger] decimal(n)[i] <= '9',
    decreases n,
{
    if n >= 10 {
        lemma_decimal_digits(n / 10);
    }
}

/// Different numbers have different decimal texts.
pub proof fn lemma_decimal_injective(n: nat, m: nat)
    requires
        decimal(n) == decimal(m),
    ensures
        n == m,
    decreases n,
{
    lemma_decimal_digits(n);
    lemma_decimal_digits(m);
    if n < 10 && m < 10 {
        assert(decimal(n)[0] == digit_char(n as int));
        assert(decimal(m)[0] == digit_char(m as int));
        assert(digit_char(n as int) as int == 48 + n);
        assert(digit_char(m as int) as int == 48 + m);
    } else if n >= 10 && m >= 10 {
        assert(decimal(n).drop_last() =~= decimal(n / 10));
        assert(decimal(m).drop_last() =~= decimal(m / 10));
        assert(decimal(n).last() == digit_char((n % 10) as int));
        assert(decimal(m).last() == digit_char((m % 10) as int));
        assert(digit_char((n % 10) as int) as int == 48 + n % 10);
        assert(digit_char((m % 10) as int) as int == 48 + m % 10);
        lemma_decimal_injective(n / 10, m / 10);
    } else if n < 10 {
        lemma_decimal_digits(m / 10);
        assert(decimal(n).len() == 1);
        assert(decimal(m).len() >= 2);
    } else {
        lemma_decimal_digits(n / 10);
        assert(decimal(m).len() == 1);
        assert(decimal(n).len() >= 2);
    }
}

/// A text behind its length: the number of its characters in decimal, a
/// colon, and the text. What follows such a text can be told from it.
pub open spec fn framed(x: Seq<char>) -> Seq<char> {
    decimal(x.len()) + seq![':'] + x
}

/// A framed text and what follows it are told apart by the whole: where
/// two such texts are equal, so are the framed parts and so is the rest.
pub proof fn lemma_framed_injective(x: Seq<char>, a: Seq<char>, y: Seq<char>, b: Seq<char>)
    requires
        framed(x) + a == framed(y) + b,
    ensures
        x == y,
        a == b,
{
    let dn = decimal(x.len());
    let dm = decimal(y.len());
    lemma_decimal_digits(x.len());
    lemma_decimal_digits(y.len());
    let s = framed(x) + a;
    let t = framed(y) + b;
    assert forall|i: int| 0 <= i < dn.len() implies s[i] == dn[i] by {}
    assert forall|i: int| 0 <= i < dm.len() implies t[i] == dm[i] by {}
    assert(s[dn.len() as int] == ':');
    assert(t[dm.len() as int] == ':');
    if dn.len() < dm.len() {
        assert(t[dn.len() as int] == dm[dn.len() as int]);
        assert(false);
    }
    if dm.len() < dn.len() {
        assert(s[dm.len() as int] == dn[dm.len() as int]);
        assert(false);
    }
    assert(dn =~= dm);
    lemma_decimal_injective(x.len(), y.len());
    let k: int = dn.len() as int + 1;
    assert(x =~= s.subrange(k, k + x.len()));
    assert(y =~= t.subrange(k, k + y.len()));
    assert(a =~= s.skip(k + x.len()));
    assert(b =~= t.skip(k + y.len()));
}

/// The UTF-8 bytes of a decimal text hold no zero byte.
pub proof fn lemma_decimal_no_zero_byte(n: nat)
    ensures
        !encode_utf8(decimal(n)).contains(0u8),
{
    lemma_decimal_digits(n);
    let s = decimal(n);
    assert(vstd::utf8::is_ascii_chars(s));
    vstd::utf8::is_ascii_chars_encode_utf8(s);
    let b = encode_utf8(s);
    if b.contains(0u8) {
        let i = choose|i: int| 0 <= i < b.len() && b[i] == 0u8;
        assert(s[i] as u8 == b[i]);
    }
}

/// The text of one decimal digit.
pub fn digit_str(d: u8) -> (r: &'static str)
    requires
        d < 10,
    ensures
        r@ == seq![digit_char(d as int)],
{
    proof {
        reveal_strlit("0");
        reveal_strlit("1");
        reveal_strlit("2");
        reveal_strlit("3");
        reveal_strlit("4");
        reveal_strlit("5");
        reveal_strlit("6");
        reveal_strlit("7");
        reveal_strlit("8");
        reveal_strlit("9");
    }
    let r = if d == 0 {
        "0"
    } else if d == 1 {
        "1"
    } else if d == 2 {
        "2"
    } else if d == 3 {
        "3"
    } else if d == 4 {
        "4"
    } else if d == 5 {
        "5"
    } else if d == 6 {
        "6"
    } else if d == 7 {
        "7"
    } else if d == 8 {
        "8"
    } else {
        "9"
    };
    assert(r@ =~= seq![digit_char(d as int)]);
    r
}

/// The decimal text of an unsigned integer.
pub fn u64_to_string(n: u64) -> (r: String)
    ensures
        r@ == decimal(n as nat),
    decreases n,
{
    if n < 10 {
        String::from_str(digit_str(n as u8))
    } else {
        let mut s = u64_to_string(n / 10);
        s.append(digit_str((n % 10) as u8));
        assert(s@ =~= decimal((n / 10) as nat).push(digit_char((n % 10) as int)));
        s
    }
}

/// The decimal text of a signed integer.
pub fn i64_to_string(i: i64) -> (r: String)
    ensures
        r@ == signed_decimal(i as int),
{
    if i < 0 {
        let m: u64 = ((-(i + 1)) as u64) + 1;
        let mut s = String::from_str("-");
        proof {
            reveal_strlit("-");
        }
        let d = u64_to_string(m);
        s.append(d.as_str());
        assert(s@ =~= seq!['-'] + decimal((-i) as nat));
        s
    } else {
        u64_to_string(i as u64)
    }
}

/// A text behind its length.
pub fn frame_text(x: &str) -> (r: String)
    ensures
        r@ == framed(x@),
{
    let mut s = u64_to_string(x.unicode_len() as u64);
    s.append(":");
    s.append(x);
    proof {
        reveal_strlit(":");
        assert(s@ =~= framed(x@));
    }
    s
}

/// The concatenation of two texts.
pub fn concat(a: &str, b: &str) -> (r: String)
    ensures
        r@ == a@ + b@,
{
    let mut s = String::from_str(a);
    s.append(b);
    s
}

/// Whether `needle` stands in `hay` at `at`.
pub open spec fn occurs_at(hay: Seq<u8>, needle: Seq<u8>, at: int) -> bool {
    0 <= at && at + needle.len() <= hay.len() && hay.subrange(at, at + needle.len()) == needle
}

/// Whether `needle` stands somewhere in `hay`.
pub open spec fn contains_bytes(hay: Seq<u8>, needle: Seq<u8>) -> bool {
    exists|at: int| #[trigger] occurs_at(hay, needle, at)
}

/// Whether `needle` stands in `hay` at `at`.
pub fn bytes_occur_at(hay: &[u8], needle: &[u8], at: usize) -> (r: bool)
    requires
        at + needle@.len() <= hay@.len(),
    ensures
        r == occurs_at(hay@, needle@, at as int),
{
    let hay_len = hay.len();
    let mut i: usize = 0;
    while i < needle.len()
        invariant
            i <= needle.len(),
            at + needle@.len() <= hay@.len(),
            hay@.len() == hay_len,
            forall|j: int| 0 <= j < i ==> hay@[at + j] == needle@[j],
        decreases needle.len() - i,
    {
        if hay[at + i] != needle[i] {
            assert(hay@.subrange(at as int, at + needle@.len())[i as int] != needle@[i as int]);
            return false;
        }
        i = i + 1;
    }
    assert(hay@.subrange(at as int, at + needle@.len()) =~= needle@);
    true
}

/// Whether `needle` stands somewhere in `hay`.
pub fn bytes_contain(hay: &[u8], needle: &[u8]) -> (r: bool)
    ensures
        r == contains_bytes(hay@, needle@),
{
    if needle.len() > hay.len() {
        return false;
    }
    let last: usize = hay.len() - needle.len();
    let mut at: usize = 0;
    loop
        invariant
            at <= last,
            last + needle@.len() == hay@.len(),
            forall|k: int| 0 <= k < at ==> !(#[trigger] occurs_at(hay@, needle@, k)),
        decreases last - at,
    {
        if bytes_occur_at(hay, needle, at) {
            return true;
        }
        if at == last {
            return false;
        }
        at = at + 1;
    }
}

} // verus!
