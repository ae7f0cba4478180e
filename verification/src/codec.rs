//! The binary form of documents: what `encode` writes and `decode` reads.
//!
//! A document is a four-byte little-endian length that counts itself, the
//! elements, and one zero byte. An element is a type tag, the name as a
//! zero-terminated string, and the value.

use crate::bson::{lemma_view_array, lemma_view_document, values_view, Bson, BsonView, DocView, Document};
use crate::text::{decimal, u64_to_string};
use vstd::bytes::{
    lemma_auto_spec_u32_to_from_le_bytes, lemma_auto_spec_u64_to_from_le_bytes,
    spec_u32_from_le_bytes, spec_u32_to_le_bytes, spec_u64_from_le_bytes, spec_u64_to_le_bytes,
    u32_from_le_bytes, u32_to_le_bytes, u64_from_le_bytes, u64_to_le_bytes,
};
use vstd::prelude::*;
use vstd::slice::slice_subrange;
use vstd::utf8::{decode_utf8, encode_utf8, valid_utf8};

verus! {

/// Largest document, in bytes, that is written or read.
pub const MAX_DOCUMENT_SIZE: usize = 16777216;

/// Why bytes are not a document, or a document has no bytes.
#[derive(Debug, Clone, Copy, PartialEq, Eq, Structural)]
pub enum BsonError {
    /// The declared length, or a value, runs past the bytes at hand.
    TruncatedDocument,
    /// The last byte of the document is not zero.
    BadTerminator,
    /// An element carries a type tag that is not known.
    BadTypeTag,
    /// A string is not UTF-8 or lacks its terminator, or a name to be
    /// written holds a zero byte.
    BadString,
    /// The document is longer than `MAX_DOCUMENT_SIZE`.
    OversizeDocument,
}

/// A zero-terminated string.
pub open spec fn cstring(s: Seq<char>) -> Seq<u8> {
    encode_utf8(s).push(0u8)
}

/// The tag byte that announces a value of this type.
pub open spec fn type_tag(v: BsonView) -> u8 {
    match v {
        BsonView::Double(_) => 0x01,
        BsonView::String(_) => 0x02,
        BsonView::Document(_) => 0x03,
        BsonView::Array(_) => 0x04,
        BsonView::Binary(_, _) => 0x05,
        BsonView::ObjectId(_) => 0x07,
        BsonView::Boolean(_) => 0x08,
        BsonView::DateTime(_) => 0x09,
        BsonView::Null => 0x0A,
        BsonView::Regex(_, _) => 0x0B,
        BsonView::Int32(_) => 0x10,
        BsonView::Timestamp(_, _) => 0x11,
        BsonView::Int64(_) => 0x12,
    }
}

/// A body of elements between its length prefix and its terminator.
pub open spec fn frame(body: Seq<u8>) -> Seq<u8> {
    spec_u32_to_le_bytes((body.len() + 5) as u32) + body + seq![0u8]
}

/// The bytes of a value, without tag and name.
pub open spec fn encode_value(v: BsonView) -> Seq<u8>
    decreases v,
{
    match v {
        BsonView::Double(b) => spec_u64_to_le_bytes(b),
        BsonView::String(s) => spec_u32_to_le_bytes((encode_utf8(s).len() + 1) as u32) + cstring(s),
        BsonView::Document(d) => frame(encode_elements(d)),
        BsonView::Array(a) => frame(encode_items(a)),
        BsonView::Binary(subtype, bytes) => spec_u32_to_le_bytes(bytes.len() as u32)
            + seq![subtype] + bytes,
        BsonView::ObjectId(b) => b,
        BsonView::Boolean(b) => seq![
            if b {
                1u8
            } else {
                0u8
            },
        ],
        BsonView::DateTime(t) => spec_u64_to_le_bytes(t as u64),
        BsonView::Null => Seq::empty(),
        BsonView::Regex(p, o) => cstring(p) + cstring(o),
        BsonView::Int32(i) => spec_u32_to_le_bytes(i as u32),
        BsonView::Timestamp(time, increment) => spec_u32_to_le_bytes(increment)
            + spec_u32_to_le_bytes(time),
        BsonView::Int64(i) => spec_u64_to_le_bytes(i as u64),
    }
}

/// The elements of a document, one after the other in the document's order.
pub open spec fn encode_elements(d: DocView) -> Seq<u8>
    decreases d,
{
    if d.len() == 0 {
        Seq::empty()
    } else {
        encode_elements(d.drop_last()) + seq![type_tag(d.last().1)] + cstring(d.last().0)
            + encode_value(d.last().1)
    }
}

/// The elements of an array: each item under its index in decimal.
pub open spec fn encode_items(a: Seq<BsonView>) -> Seq<u8>
    decreases a,
{
    if a.len() == 0 {
        Seq::empty()
    } else {
        encode_items(a.drop_last()) + seq![type_tag(a.last())] + cstring(
            decimal((a.len() - 1) as nat),
        ) + encode_value(a.last())
    }
}

/// One element: tag, name, value.
pub open spec fn encode_element(key: Seq<char>, v: BsonView) -> Seq<u8> {
    seq![type_tag(v)] + cstring(key) + encode_value(v)
}

/// The bytes of a document.
pub open spec fn encode_document(d: DocView) -> Seq<u8> {
    frame(encode_elements(d))
}

/// A name can be written: its UTF-8 bytes hold no zero byte.
pub open spec fn key_ok(k: Seq<char>) -> bool {
    !encode_utf8(k).contains(0u8)
}

/// Every name and every regular expression inside the value can be written.
pub open spec fn value_wf(v: BsonView) -> bool
    decreases v,
{
    match v {
        BsonView::Document(d) => entries_wf(d),
        BsonView::Array(a) => items_wf(a),
        BsonView::ObjectId(b) => b.len() == 12,
        BsonView::Regex(p, o) => key_ok(p) && key_ok(o),
        _ => true,
    }
}

/// Every name in the document, at any depth, can be written.
pub open spec fn entries_wf(d: DocView) -> bool
    decreases d,
{
    forall|i: int| 0 <= i < d.len() ==> key_ok((#[trigger] d[i]).0) && value_wf(d[i].1)
}

/// Every name inside the items of an array can be written.
pub open spec fn items_wf(a: Seq<BsonView>) -> bool
    decreases a,
{
    forall|i: int| 0 <= i < a.len() ==> value_wf(#[trigger] a[i])
}

/// A document that has a binary form: its names can be written and its
/// bytes fit the size limit.
pub open spec fn legal_document(d: DocView) -> bool {
    entries_wf(d) && encode_document(d).len() <= MAX_DOCUMENT_SIZE
}

/// The elements of a prefix of a document are a prefix of its elements.
pub proof fn lemma_elements_prefix_len(d: DocView, k: int)
    requires
        0 <= k <= d.len(),
    ensures
        encode_elements(d.take(k)).len() <= encode_elements(d).len(),
    decreases d.len(),
{
    if k == d.len() {
        assert(d.take(k) =~= d);
    } else {
        assert(d.drop_last().take(k) =~= d.take(k));
        lemma_elements_prefix_len(d.drop_last(), k);
    }
}

/// The items of a prefix of an array are a prefix of its items.
pub proof fn lemma_items_prefix_len(a: Seq<BsonView>, k: int)
    requires
        0 <= k <= a.len(),
    ensures
        encode_items(a.take(k)).len() <= encode_items(a).len(),
    decreases a.len(),
{
    if k == a.len() {
        assert(a.take(k) =~= a);
    } else {
        assert(a.drop_last().take(k) =~= a.take(k));
        lemma_items_prefix_len(a.drop_last(), k);
    }
}

/// Appends the bytes of `b` to `out`.
pub fn push_all(out: &mut Vec<u8>, b: &[u8])
    ensures
        final(out)@ == old(out)@ + b@,
{
    let mut i: usize = 0;
    while i < b.len()
        invariant
            i <= b.len(),
            out@ == old(out)@ + b@.subrange(0, i as int),
        decreases b.len() - i,
    {
        out.push(b[i]);
        assert(out@ =~= old(out)@ + b@.subrange(0, i + 1));
        i = i + 1;
    }
    assert(b@.subrange(0, b@.len() as int) =~= b@);
}

/// Whether a zero byte occurs in `b`.
pub fn has_zero_byte(b: &[u8]) -> (r: bool)
    ensures
        r == b@.contains(0u8),
{
    let mut i: usize = 0;
    while i < b.len()
        invariant
            i <= b.len(),
            forall|j: int| 0 <= j < i ==> b@[j] != 0u8,
        decreases b.len() - i,
    {
        if b[i] == 0 {
            return true;
        }
        i = i + 1;
    }
    false
}

/// Whether a name can be written.
pub fn name_ok(s: &str) -> (r: bool)
    ensures
        r == key_ok(s@),
{
    !has_zero_byte(s.as_bytes())
}

/// The tag byte of a value.
pub fn type_tag_of(v: &Bson) -> (r: u8)
    ensures
        r == type_tag(v@),
{
    match v {
        Bson::Double(_) => 0x01,
        Bson::String(_) => 0x02,
        Bson::Document(_) => 0x03,
        Bson::Array(_) => 0x04,
        Bson::Binary { .. } => 0x05,
        Bson::ObjectId(_) => 0x07,
        Bson::Boolean(_) => 0x08,
        Bson::DateTime(_) => 0x09,
        Bson::Null => 0x0A,
        Bson::Regex { .. } => 0x0B,
        Bson::Int32(_) => 0x10,
        Bson::Timestamp { .. } => 0x11,
        Bson::Int64(_) => 0x12,
    }
}

/// Whether every name and regular expression inside a value can be written.
#[verifier::loop_isolation(false)]
pub fn check_value(v: &Bson) -> (r: bool)
    ensures
        r == value_wf(v@),
    decreases v,
{
    match v {
        Bson::Document(d) => {
            proof {
                lemma_view_document(*d);
            }
            check_entries(d)
        },
        Bson::Array(a) => {
            proof {
                lemma_view_array(*a);
            }
            let mut i: usize = 0;
            while i < a.len()
                invariant
                    i <= a.len(),
                    forall|j: int| 0 <= j < i ==> value_wf(#[trigger] values_view(a@)[j]),
                decreases a.len() - i,
            {
                if !check_value(&a[i]) {
                    assert(!value_wf(values_view(a@)[i as int]));
                    return false;
                }
                i = i + 1;
            }
            true
        },
        Bson::Regex { pattern, options } => name_ok(pattern.as_str()) && name_ok(
            options.as_str(),
        ),
        _ => true,
    }
}

/// Whether every name in a document, at any depth, can be written.
#[verifier::loop_isolation(false)]
pub fn check_entries(d: &Document) -> (r: bool)
    ensures
        r == entries_wf(d@),
    decreases d,
{
    let mut i: usize = 0;
    while i < d.entries.len()
        invariant
            i <= d.entries.len(),
            forall|j: int| 0 <= j < i ==> key_ok((#[trigger] d@[j]).0) && value_wf(d@[j].1),
        decreases d.entries.len() - i,
    {
        if !name_ok(d.entries[i].0.as_str()) {
            assert(!key_ok(d@[i as int].0));
            return false;
        }
        if !check_value(&d.entries[i].1) {
            assert(!value_wf(d@[i as int].1));
            return false;
        }
        i = i + 1;
    }
    true
}

/// Wraps a body of elements into a document.
fn frame_bytes(body: &Vec<u8>) -> (r: Vec<u8>)
    requires
        body@.len() + 5 <= MAX_DOCUMENT_SIZE,
    ensures
        r@ == frame(body@),
{
    let n: u32 = (body.len() + 5) as u32;
    let mut out = u32_to_le_bytes(n);
    push_all(&mut out, body.as_slice());
    out.push(0u8);
    assert(out@ =~= frame(body@));
    out
}

/// One element appended to `out`, where it still fits the size limit.
fn append_element(out: &mut Vec<u8>, tag: u8, key: &str, value: &Vec<u8>) -> (fits: bool)
    requires
        old(out)@.len() + 5 <= MAX_DOCUMENT_SIZE,
        value@.len() <= MAX_DOCUMENT_SIZE,
    ensures
        fits == (old(out)@.len() + 2 + encode_utf8(key@).len() + value@.len() + 5
            <= MAX_DOCUMENT_SIZE),
        fits ==> final(out)@ == old(out)@ + seq![tag] + cstring(key@) + value@,
        !fits ==> final(out)@ == old(out)@,
{
    let kb = key.as_bytes();
    if kb.len() > MAX_DOCUMENT_SIZE {
        return false;
    }
    if out.len() + 2 + kb.len() + value.len() + 5 > MAX_DOCUMENT_SIZE {
        return false;
    }
    out.push(tag);
    push_all(out, kb);
    out.push(0u8);
    push_all(out, value.as_slice());
    assert(out@ =~= old(out)@ + seq![tag] + cstring(key@) + value@);
    true
}

/// The bytes of a value, or `None` where they exceed the size limit.
#[verifier::loop_isolation(false)]
fn encode_value_bytes(v: &Bson) -> (r: Option<Vec<u8>>)
    requires
        value_wf(v@),
    ensures
        match r {
            Some(b) => b@ == encode_value(v@) && b@.len() <= MAX_DOCUMENT_SIZE,
            None => encode_value(v@).len() > MAX_DOCUMENT_SIZE,
        },
    decreases v,
{
    proof {
        lemma_auto_spec_u32_to_from_le_bytes();
        lemma_auto_spec_u64_to_from_le_bytes();
    }
    match v {
        Bson::Double(b) => Some(u64_to_le_bytes(*b)),
        Bson::String(s) => {
            let sb = s.as_str().as_bytes();
            if sb.len() > MAX_DOCUMENT_SIZE - 5 {
                return None;
            }
            let mut out = u32_to_le_bytes((sb.len() + 1) as u32);
            push_all(&mut out, sb);
            out.push(0u8);
            assert(out@ =~= encode_value(v@));
            Some(out)
        },
        Bson::Document(d) => {
            proof {
                lemma_view_document(*d);
            }
            match encode_entries(d) {
                Some(body) => Some(frame_bytes(&body)),
                None => None,
            }
        },
        Bson::Array(a) => {
            proof {
                lemma_view_array(*a);
            }
            let ghost items = values_view(a@);
            let mut body: Vec<u8> = Vec::new();
            let mut i: usize = 0;
            while i < a.len()
                invariant
                    i <= a.len(),
                    body@ == encode_items(items.take(i as int)),
                    body@.len() + 5 <= MAX_DOCUMENT_SIZE,
                decreases a.len() - i,
            {
                proof {
                    assert(items.take(i + 1).drop_last() =~= items.take(i as int));
                    assert(items.take(i + 1).last() == a[i as int]@);
                    lemma_items_prefix_len(items, i + 1);
                }
                let vb = match encode_value_bytes(&a[i]) {
                    Some(b) => b,
                    None => {
                        return None;
                    },
                };
                let key = u64_to_string(i as u64);
                let fits = append_element(&mut body, type_tag_of(&a[i]), key.as_str(), &vb);
                if !fits {
                    return None;
                }
                i = i + 1;
            }
            assert(items.take(a.len() as int) =~= items);
            Some(frame_bytes(&body))
        },
        Bson::Binary { subtype, bytes } => {
            if bytes.len() > MAX_DOCUMENT_SIZE - 5 {
                return None;
            }
            let mut out = u32_to_le_bytes(bytes.len() as u32);
            out.push(*subtype);
            push_all(&mut out, bytes.as_slice());
            assert(out@ =~= encode_value(v@));
            Some(out)
        },
        Bson::ObjectId(b) => {
            let mut out: Vec<u8> = Vec::new();
            push_all(&mut out, b.as_slice());
            assert(out@ =~= b@);
            Some(out)
        },
        Bson::Boolean(b) => {
            let mut out: Vec<u8> = Vec::new();
            out.push(
                if *b {
                    1u8
                } else {
                    0u8
                },
            );
            assert(out@ =~= encode_value(v@));
            Some(out)
        },
        Bson::DateTime(t) => Some(u64_to_le_bytes(#[verifier::truncate] (*t as u64))),
        Bson::Null => {
            let out: Vec<u8> = Vec::new();
            assert(out@ =~= encode_value(v@));
            Some(out)
        },
        Bson::Regex { pattern, options } => {
            let pb = pattern.as_str().as_bytes();
            let ob = options.as_str().as_bytes();
            if pb.len() > MAX_DOCUMENT_SIZE || ob.len() > MAX_DOCUMENT_SIZE || pb.len() + ob.len()
                + 2 > MAX_DOCUMENT_SIZE {
                return None;
            }
            let mut out: Vec<u8> = Vec::new();
            push_all(&mut out, pb);
            out.push(0u8);
            push_all(&mut out, ob);
            out.push(0u8);
            assert(out@ =~= encode_value(v@));
            Some(out)
        },
        Bson::Int32(i) => Some(u32_to_le_bytes(#[verifier::truncate] (*i as u32))),
        Bson::Timestamp { time, increment } => {
            let mut out = u32_to_le_bytes(*increment);
            let t = u32_to_le_bytes(*time);
            push_all(&mut out, t.as_slice());
            Some(out)
        },
        Bson::Int64(i) => Some(u64_to_le_bytes(#[verifier::truncate] (*i as u64))),
    }
}

/// The elements of a document, or `None` where the document exceeds the
/// size limit.
#[verifier::loop_isolation(false)]
fn encode_entries(d: &Document) -> (r: Option<Vec<u8>>)
    requires
        entries_wf(d@),
    ensures
        match r {
            Some(b) => b@ == encode_elements(d@) && b@.len() + 5 <= MAX_DOCUMENT_SIZE,
            None => encode_elements(d@).len() + 5 > MAX_DOCUMENT_SIZE,
        },
    decreases d,
{
    let mut body: Vec<u8> = Vec::new();
    let mut i: usize = 0;
    while i < d.entries.len()
        invariant
            i <= d.entries.len(),
            body@ == encode_elements(d@.take(i as int)),
            body@.len() + 5 <= MAX_DOCUMENT_SIZE,
        decreases d.entries.len() - i,
    {
        proof {
            assert(d@.take(i + 1).drop_last() =~= d@.take(i as int));
            assert(d@.take(i + 1).last() == d@[i as int]);
            assert(key_ok(d@[i as int].0) && value_wf(d@[i as int].1));
            lemma_elements_prefix_len(d@, i + 1);
        }
        let vb = match encode_value_bytes(&d.entries[i].1) {
            Some(b) => b,
            None => {
                return None;
            },
        };
        let fits = append_element(
            &mut body,
            type_tag_of(&d.entries[i].1),
            d.entries[i].0.as_str(),
            &vb,
        );
        if !fits {
            return None;
        }
        i = i + 1;
    }
    assert(d@.take(d@.len() as int) =~= d@);
    Some(body)
}

/// Why a document that has no binary form has none: a name that holds a
/// zero byte, or else its length.
pub open spec fn encode_fault(d: DocView) -> BsonError {
    if !entries_wf(d) {
        BsonError::BadString
    } else {
        BsonError::OversizeDocument
    }
}

/// Writes a document in its binary form.
///
/// A name that holds a zero byte gives `BadString`, anywhere in the
/// document; otherwise a binary form longer than `MAX_DOCUMENT_SIZE` gives
/// `OversizeDocument`; otherwise the bytes are returned.
pub fn encode(doc: &Document) -> (r: Result<Vec<u8>, BsonError>)
    ensures
        match r {
            Ok(bytes) => legal_document(doc@) && bytes@ == encode_document(doc@),
            Err(e) => !legal_document(doc@) && e == encode_fault(doc@),
        },
{
    proof {
        lemma_auto_spec_u32_to_from_le_bytes();
    }
    if !check_entries(doc) {
        return Err(BsonError::BadString);
    }
    match encode_entries(doc) {
        Some(body) => Ok(frame_bytes(&body)),
        None => Err(BsonError::OversizeDocument),
    }
}

/// The four bytes at `at`, read as a little-endian integer.
pub open spec fn read_u32(b: Seq<u8>, at: int) -> u32 {
    spec_u32_from_le_bytes(b.subrange(at, at + 4))
}

/// The eight bytes at `at`, read as a little-endian integer.
pub open spec fn read_u64(b: Seq<u8>, at: int) -> u64 {
    spec_u64_from_le_bytes(b.subrange(at, at + 8))
}

/// Index of the first zero byte at or after `i`; the length of `b` where
/// there is none.
pub open spec fn first_zero_from(b: Seq<u8>, i: int) -> int
    decreases b.len() - i,
{
    if i < 0 || i >= b.len() {
        b.len() as int
    } else if b[i] == 0u8 {
        i
    } else {
        first_zero_from(b, i + 1)
    }
}

/// Index of the first zero byte; the length of `b` where there is none.
pub open spec fn first_zero(b: Seq<u8>) -> int {
    first_zero_from(b, 0)
}

/// Where no zero byte stands before `i`, the search from `i` finds what the
/// search from the start finds.
pub proof fn lemma_first_zero_skip(b: Seq<u8>, i: int)
    requires
        0 <= i <= b.len(),
        forall|j: int| 0 <= j < i ==> b[j] != 0u8,
    ensures
        first_zero_from(b, i) == first_zero(b),
    decreases i,
{
    if i > 0 {
        lemma_first_zero_skip(b, i - 1);
    }
}

/// A zero-terminated UTF-8 string at the start of `b`, with the number of
/// bytes it takes, terminator included.
pub open spec fn parse_cstring(b: Seq<u8>) -> Option<(Seq<char>, int)> {
    let n = first_zero(b);
    if n >= b.len() {
        None
    } else if !valid_utf8(b.subrange(0, n)) {
        None
    } else {
        Some((decode_utf8(b.subrange(0, n)), n + 1))
    }
}

/// The values of a document's entries, in order.
pub open spec fn entry_values(d: DocView) -> Seq<BsonView> {
    Seq::new(d.len(), |i: int| d[i].1)
}

/// The document at the start of `b`, with its declared length.
pub open spec fn parse_document(b: Seq<u8>) -> Result<(DocView, int), BsonError>
    decreases b.len(), 0int,
{
    if b.len() < 4 {
        Err(BsonError::TruncatedDocument)
    } else {
        let n = read_u32(b, 0) as int;
        if n < 5 {
            Err(BsonError::TruncatedDocument)
        } else if n > MAX_DOCUMENT_SIZE {
            Err(BsonError::OversizeDocument)
        } else if n > b.len() {
            Err(BsonError::TruncatedDocument)
        } else if b[n - 1] != 0u8 {
            Err(BsonError::BadTerminator)
        } else {
            match parse_elements(b.subrange(4, n - 1)) {
                Ok(d) => Ok((d, n)),
                Err(e) => Err(e),
            }
        }
    }
}

/// The value of the type that `tag` announces at the start of `b`, with the
/// number of bytes it takes.
pub open spec fn parse_value(tag: u8, b: Seq<u8>) -> Result<(BsonView, int), BsonError>
    decreases b.len(), 1int,
{
    if tag == 0x01 {
        if b.len() < 8 {
            Err(BsonError::TruncatedDocument)
        } else {
            Ok((BsonView::Double(read_u64(b, 0)), 8))
        }
    } else if tag == 0x02 {
        if b.len() < 4 {
            Err(BsonError::TruncatedDocument)
        } else {
            let n = read_u32(b, 0) as int;
            if n < 1 {
                Err(BsonError::BadString)
            } else if n > b.len() - 4 {
                Err(BsonError::TruncatedDocument)
            } else if b[4 + n - 1] != 0u8 {
                Err(BsonError::BadString)
            } else if !valid_utf8(b.subrange(4, 4 + n - 1)) {
                Err(BsonError::BadString)
            } else {
                Ok((BsonView::String(decode_utf8(b.subrange(4, 4 + n - 1))), 4 + n))
            }
        }
    } else if tag == 0x03 {
        match parse_document(b) {
            Ok((d, n)) => Ok((BsonView::Document(d), n)),
            Err(e) => Err(e),
        }
    } else if tag == 0x04 {
        match parse_document(b) {
            Ok((d, n)) => Ok((BsonView::Array(entry_values(d)), n)),
            Err(e) => Err(e),
        }
    } else if tag == 0x05 {
        if b.len() < 5 {
            Err(BsonError::TruncatedDocument)
        } else {
            let n = read_u32(b, 0) as int;
            if n > b.len() - 5 {
                Err(BsonError::TruncatedDocument)
            } else {
                Ok((BsonView::Binary(b[4], b.subrange(5, 5 + n)), 5 + n))
            }
        }
    } else if tag == 0x07 {
        if b.len() < 12 {
            Err(BsonError::TruncatedDocument)
        } else {
            Ok((BsonView::ObjectId(b.subrange(0, 12)), 12))
        }
    } else if tag == 0x08 {
        if b.len() < 1 {
            Err(BsonError::TruncatedDocument)
        } else {
            Ok((BsonView::Boolean(b[0] != 0u8), 1))
        }
    } else if tag == 0x09 {
        if b.len() < 8 {
            Err(BsonError::TruncatedDocument)
        } else {
            Ok((BsonView::DateTime(read_u64(b, 0) as i64), 8))
        }
    } else if tag == 0x0A {
        Ok((BsonView::Null, 0))
    } else if tag == 0x0B {
        match parse_cstring(b) {
            None => Err(BsonError::BadString),
            Some((p, np)) => match parse_cstring(b.subrange(np, b.len() as int)) {
                None => Err(BsonError::BadString),
                Some((o, no)) => Ok((BsonView::Regex(p, o), np + no)),
            },
        }
    } else if tag == 0x10 {
        if b.len() < 4 {
            Err(BsonError::TruncatedDocument)
        } else {
            Ok((BsonView::Int32(read_u32(b, 0) as i32), 4))
        }
    } else if tag == 0x11 {
        if b.len() < 8 {
            Err(BsonError::TruncatedDocument)
        } else {
            Ok((BsonView::Timestamp(read_u32(b, 4), read_u32(b, 0)), 8))
        }
    } else if tag == 0x12 {
        if b.len() < 8 {
            Err(BsonError::TruncatedDocument)
        } else {
            Ok((BsonView::Int64(read_u64(b, 0) as i64), 8))
        }
    } else {
        Err(BsonError::BadTypeTag)
    }
}

/// The element at the start of `b`: its name, its value, and the number of
/// bytes it takes.
pub open spec fn parse_element(b: Seq<u8>) -> Result<(Seq<char>, BsonView, int), BsonError>
    decreases b.len(), 2int,
{
    if b.len() == 0 {
        Err(BsonError::TruncatedDocument)
    } else {
        match parse_cstring(b.subrange(1, b.len() as int)) {
            None => Err(BsonError::BadString),
            Some((key, nk)) => {
                if nk < 1 || 1 + nk > b.len() {
                    Err(BsonError::BadString)
                } else {
                    match parse_value(b[0], b.subrange(1 + nk, b.len() as int)) {
                        Err(e) => Err(e),
                        Ok((v, nv)) => Ok((key, v, 1 + nk + nv)),
                    }
                }
            },
        }
    }
}

/// The elements that fill `b` from its first to its last byte.
pub open spec fn parse_elements(b: Seq<u8>) -> Result<DocView, BsonError>
    decreases b.len(), 3int,
{
    if b.len() == 0 {
        Ok(Seq::empty())
    } else {
        match parse_element(b) {
            Err(e) => Err(e),
            Ok((key, v, n)) => {
                if n < 1 || n > b.len() {
                    Err(BsonError::TruncatedDocument)
                } else {
                    prepend(seq![(key, v)], parse_elements(b.subrange(n, b.len() as int)))
                }
            },
        }
    }
}

/// `acc` followed by what `r` holds, or the error of `r`.
pub open spec fn prepend(acc: DocView, r: Result<DocView, BsonError>) -> Result<
    DocView,
    BsonError,
> {
    match r {
        Ok(t) => Ok(acc + t),
        Err(e) => Err(e),
    }
}

/// The error type of `core::str::from_utf8`, carried through and never read.
#[verifier::external_type_specification]
#[verifier::external_body]
pub struct ExUtf8Error(core::str::Utf8Error);

/// `core::str::from_utf8` succeeds exactly on valid UTF-8, and the string
/// slice it returns has the bytes it was given.
pub assume_specification[ core::str::from_utf8 ](v: &[u8]) -> (r: Result<
    &str,
    core::str::Utf8Error,
>)
    ensures
        r is Ok <==> valid_utf8(v@),
        r matches Ok(s) ==> encode_utf8(s@) == v@,
;

/// The string that valid UTF-8 bytes spell.
pub fn bytes_to_string(b: &[u8]) -> (r: Option<String>)
    ensures
        match r {
            Some(s) => valid_utf8(b@) && s@ == decode_utf8(b@),
            None => !valid_utf8(b@),
        },
{
    match core::str::from_utf8(b) {
        Ok(s) => {
            proof {
                vstd::utf8::encode_utf8_decode_utf8(s@);
            }
            Some(s.to_owned())
        },
        Err(_) => None,
    }
}

/// A text read from bytes agrees with what the model finds there.
pub open spec fn cstring_matches(r: Option<(String, usize)>, m: Option<(Seq<char>, int)>) -> bool {
    match (r, m) {
        (Some((s, n)), Some((sv, nv))) => s@ == sv && n == nv,
        (None, None) => true,
        _ => false,
    }
}

/// A value read from bytes agrees with what the model finds there.
pub open spec fn value_matches(
    r: Result<(Bson, usize), BsonError>,
    m: Result<(BsonView, int), BsonError>,
) -> bool {
    match (r, m) {
        (Ok((v, n)), Ok((vv, nv))) => v@ == vv && n == nv,
        (Err(e), Err(ev)) => e == ev,
        _ => false,
    }
}

/// A document read from bytes agrees with what the model finds there.
pub open spec fn document_matches(
    r: Result<(Document, usize), BsonError>,
    m: Result<(DocView, int), BsonError>,
) -> bool {
    match (r, m) {
        (Ok((d, n)), Ok((dv, nv))) => d@ == dv && n == nv,
        (Err(e), Err(ev)) => e == ev,
        _ => false,
    }
}

/// The model of a list of entries.
pub open spec fn entries_view(e: Seq<(String, Bson)>) -> DocView {
    Seq::new(e.len(), |i: int| (e[i].0@, e[i].1@))
}

/// Entries read from bytes agree with what the model finds there.
pub open spec fn elements_match(
    r: Result<Vec<(String, Bson)>, BsonError>,
    m: Result<DocView, BsonError>,
) -> bool {
    match (r, m) {
        (Ok(e), Ok(dv)) => entries_view(e@) == dv,
        (Err(e), Err(ev)) => e == ev,
        _ => false,
    }
}

/// An element read from bytes agrees with what the model finds there.
pub open spec fn element_matches(
    r: Result<(String, Bson, usize), BsonError>,
    m: Result<(Seq<char>, BsonView, int), BsonError>,
) -> bool {
    match (r, m) {
        (Ok((k, v, n)), Ok((kv, vv, nv))) => k@ == kv && v@ == vv && n == nv,
        (Err(e), Err(ev)) => e == ev,
        _ => false,
    }
}

pub fn read_u32_at(b: &[u8], at: usize) -> (r: u32)
    requires
        at + 4 <= b@.len(),
    ensures
        r == read_u32(b@, at as int),
{
    let len = b.len();
    u32_from_le_bytes(slice_subrange(b, at, at + 4))
}

pub fn read_u64_at(b: &[u8], at: usize) -> (r: u64)
    requires
        at + 8 <= b@.len(),
    ensures
        r == read_u64(b@, at as int),
{
    let len = b.len();
    u64_from_le_bytes(slice_subrange(b, at, at + 8))
}

/// Reads a zero-terminated UTF-8 string from the start of `b`.
pub fn read_cstring(b: &[u8]) -> (r: Option<(String, usize)>)
    ensures
        cstring_matches(r, parse_cstring(b@)),
        r matches Some((_, n)) ==> 1 <= n <= b@.len(),
{
    let mut i: usize = 0;
    while i < b.len() && b[i] != 0
        invariant
            i <= b.len(),
            forall|j: int| 0 <= j < i ==> b@[j] != 0u8,
        decreases b.len() - i,
    {
        i = i + 1;
    }
    proof {
        lemma_first_zero_skip(b@, i as int);
    }
    if i >= b.len() {
        return None;
    }
    match bytes_to_string(slice_subrange(b, 0, i)) {
        Some(s) => Some((s, i + 1)),
        None => None,
    }
}

/// The values of a list of entries, in order; the names are dropped.
fn into_values(entries: Vec<(String, Bson)>) -> (r: Vec<Bson>)
    ensures
        values_view(r@) == entry_values(entries_view(entries@)),
{
    let ghost all = entries@;
    let mut rest = entries;
    let mut rev: Vec<Bson> = Vec::new();
    while rest.len() > 0
        invariant
            rest@ == all.take(rest.len() as int),
            rest.len() + rev.len() == all.len(),
            forall|j: int| 0 <= j < rev.len() ==> rev@[j] == all[all.len() - 1 - j].1,
        decreases rest.len(),
    {
        let e = rest.pop().unwrap();
        rev.push(e.1);
        assert(rest@ =~= all.take(rest.len() as int));
    }
    let ghost mid = rev@;
    let mut out: Vec<Bson> = Vec::new();
    while rev.len() > 0
        invariant
            rev@ == mid.take(rev.len() as int),
            mid.len() == all.len(),
            rev.len() + out.len() == all.len(),
            forall|j: int| 0 <= j < mid.len() ==> mid[j] == all[all.len() - 1 - j].1,
            forall|j: int| 0 <= j < out.len() ==> out@[j] == all[j].1,
        decreases rev.len(),
    {
        let v = rev.pop().unwrap();
        out.push(v);
        assert(rev@ =~= mid.take(rev.len() as int));
    }
    assert(values_view(out@) =~= entry_values(entries_view(all)));
    out
}

/// Reads the value that `tag` announces from the start of `b`.
#[verifier::loop_isolation(false)]
fn decode_value(tag: u8, b: &[u8]) -> (r: Result<(Bson, usize), BsonError>)
    ensures
        value_matches(r, parse_value(tag, b@)),
        r matches Ok((_, n)) ==> n <= b@.len(),
    decreases b@.len(), 1int,
{
    if tag == 0x01 {
        if b.len() < 8 {
            return Err(BsonError::TruncatedDocument);
        }
        Ok((Bson::Double(read_u64_at(b, 0)), 8))
    } else if tag == 0x02 {
        if b.len() < 4 {
            return Err(BsonError::TruncatedDocument);
        }
        let n: usize = read_u32_at(b, 0) as usize;
        if n < 1 {
            return Err(BsonError::BadString);
        }
        if n > b.len() - 4 {
            return Err(BsonError::TruncatedDocument);
        }
        if b[4 + n - 1] != 0 {
            return Err(BsonError::BadString);
        }
        match bytes_to_string(slice_subrange(b, 4, 4 + n - 1)) {
            Some(s) => Ok((Bson::String(s), 4 + n)),
            None => Err(BsonError::BadString),
        }
    } else if tag == 0x03 {
        match decode_document(b) {
            Ok((d, n)) => {
                proof {
                    lemma_view_document(d);
                }
                Ok((Bson::Document(d), n))
            },
            Err(e) => Err(e),
        }
    } else if tag == 0x04 {
        match decode_document(b) {
            Ok((d, n)) => {
                let ghost dv = d@;
                assert(entries_view(d.entries@) =~= dv);
                let items = into_values(d.entries);
                proof {
                    lemma_view_array(items);
                }
                Ok((Bson::Array(items), n))
            },
            Err(e) => Err(e),
        }
    } else if tag == 0x05 {
        if b.len() < 5 {
            return Err(BsonError::TruncatedDocument);
        }
        let n: usize = read_u32_at(b, 0) as usize;
        if n > b.len() - 5 {
            return Err(BsonError::TruncatedDocument);
        }
        let mut bytes: Vec<u8> = Vec::new();
        push_all(&mut bytes, slice_subrange(b, 5, 5 + n));
        assert(bytes@ =~= b@.subrange(5, 5 + n));
        Ok((Bson::Binary { subtype: b[4], bytes }, 5 + n))
    } else if tag == 0x07 {
        if b.len() < 12 {
            return Err(BsonError::TruncatedDocument);
        }
        let mut id: [u8; 12] = [0u8; 12];
        let mut i: usize = 0;
        while i < 12
            invariant
                i <= 12,
                forall|j: int| 0 <= j < i ==> id@[j] == b@[j],
            decreases 12 - i,
        {
            id[i] = b[i];
            i = i + 1;
        }
        assert(id@ =~= b@.subrange(0, 12));
        Ok((Bson::ObjectId(id), 12))
    } else if tag == 0x08 {
        if b.len() < 1 {
            return Err(BsonError::TruncatedDocument);
        }
        Ok((Bson::Boolean(b[0] != 0), 1))
    } else if tag == 0x09 {
        if b.len() < 8 {
            return Err(BsonError::TruncatedDocument);
        }
        Ok((Bson::DateTime(#[verifier::truncate] (read_u64_at(b, 0) as i64)), 8))
    } else if tag == 0x0A {
        Ok((Bson::Null, 0))
    } else if tag == 0x0B {
        match read_cstring(b) {
            None => Err(BsonError::BadString),
            Some((pattern, np)) => match read_cstring(slice_subrange(b, np, b.len())) {
                None => Err(BsonError::BadString),
                Some((options, no)) => Ok((Bson::Regex { pattern, options }, np + no)),
            },
        }
    } else if tag == 0x10 {
        if b.len() < 4 {
            return Err(BsonError::TruncatedDocument);
        }
        Ok((Bson::Int32(#[verifier::truncate] (read_u32_at(b, 0) as i32)), 4))
    } else if tag == 0x11 {
        if b.len() < 8 {
            return Err(BsonError::TruncatedDocument);
        }
        Ok((Bson::Timestamp { time: read_u32_at(b, 4), increment: read_u32_at(b, 0) }, 8))
    } else if tag == 0x12 {
        if b.len() < 8 {
            return Err(BsonError::TruncatedDocument);
        }
        Ok((Bson::Int64(#[verifier::truncate] (read_u64_at(b, 0) as i64)), 8))
    } else {
        Err(BsonError::BadTypeTag)
    }
}

/// Reads the element at the start of `b`.
fn decode_element(b: &[u8]) -> (r: Result<(String, Bson, usize), BsonError>)
    requires
        b@.len() > 0,
    ensures
        element_matches(r, parse_element(b@)),
        r matches Ok((_, _, n)) ==> 1 <= n <= b@.len(),
    decreases b@.len(), 2int,
{
    let tag = b[0];
    match read_cstring(slice_subrange(b, 1, b.len())) {
        None => Err(BsonError::BadString),
        Some((key, nk)) => {
            match decode_value(tag, slice_subrange(b, 1 + nk, b.len())) {
                Err(e) => Err(e),
                Ok((v, nv)) => Ok((key, v, 1 + nk + nv)),
            }
        },
    }
}

/// The elements found in `b` from `off` on follow `acc`: one more element
/// read there moves `off` and lengthens `acc`.
proof fn lemma_elements_step(b: Seq<u8>, off: int, acc: DocView, key: Seq<char>, v: BsonView, n: int)
    requires
        0 <= off < b.len(),
        parse_element(b.subrange(off, b.len() as int)) == Ok::<
            (Seq<char>, BsonView, int),
            BsonError,
        >((key, v, n)),
        1 <= n <= b.len() - off,
    ensures
        prepend(acc, parse_elements(b.subrange(off, b.len() as int))) == prepend(
            acc.push((key, v)),
            parse_elements(b.subrange(off + n, b.len() as int)),
        ),
{
    let cur = b.subrange(off, b.len() as int);
    assert(cur.subrange(n, cur.len() as int) =~= b.subrange(off + n, b.len() as int));
    let tail = parse_elements(b.subrange(off + n, b.len() as int));
    assert(parse_elements(cur) == prepend(seq![(key, v)], tail));
    match tail {
        Ok(t) => {
            assert(acc + (seq![(key, v)] + t) =~= acc.push((key, v)) + t);
        },
        Err(_) => {},
    }
}

/// Reads the elements that fill `b`.
fn decode_elements(b: &[u8]) -> (r: Result<Vec<(String, Bson)>, BsonError>)
    ensures
        elements_match(r, parse_elements(b@)),
    decreases b@.len(), 3int,
{
    let mut out: Vec<(String, Bson)> = Vec::new();
    let mut off: usize = 0;
    proof {
        assert(b@.subrange(0, b@.len() as int) =~= b@);
        match parse_elements(b@) {
            Ok(t) => {
                assert(entries_view(out@) + t =~= t);
            },
            Err(_) => {},
        }
    }
    while off < b.len()
        invariant
            off <= b.len(),
            parse_elements(b@) == prepend(
                entries_view(out@),
                parse_elements(b@.subrange(off as int, b@.len() as int)),
            ),
        decreases b.len() - off,
    {
        let cur = slice_subrange(b, off, b.len());
        match decode_element(cur) {
            Err(e) => {
                return Err(e);
            },
            Ok((key, v, n)) => {
                proof {
                    lemma_elements_step(b@, off as int, entries_view(out@), key@, v@, n as int);
                }
                let ghost before = entries_view(out@);
                out.push((key, v));
                assert(entries_view(out@) =~= before.push((key@, v@)));
                off = off + n;
            },
        }
    }
    proof {
        assert(b@.subrange(off as int, b@.len() as int) =~= Seq::<u8>::empty());
        assert(entries_view(out@) + Seq::<(Seq<char>, BsonView)>::empty() =~= entries_view(out@));
    }
    Ok(out)
}

/// Reads the document at the start of `b`.
pub fn decode_document(b: &[u8]) -> (r: Result<(Document, usize), BsonError>)
    ensures
        document_matches(r, parse_document(b@)),
        r matches Ok((_, n)) ==> 5 <= n <= b@.len() && n <= MAX_DOCUMENT_SIZE,
    decreases b@.len(), 0int,
{
    if b.len() < 4 {
        return Err(BsonError::TruncatedDocument);
    }
    let n: usize = read_u32_at(b, 0) as usize;
    if n < 5 {
        return Err(BsonError::TruncatedDocument);
    }
    if n > MAX_DOCUMENT_SIZE {
        return Err(BsonError::OversizeDocument);
    }
    if n > b.len() {
        return Err(BsonError::TruncatedDocument);
    }
    if b[n - 1] != 0 {
        return Err(BsonError::BadTerminator);
    }
    match decode_elements(slice_subrange(b, 4, n - 1)) {
        Ok(entries) => {
            let d = Document { entries };
            assert(d@ =~= entries_view(d.entries@));
            Ok((d, n))
        },
        Err(e) => Err(e),
    }
}

/// Reads one document from the start of `bytes` and says how many bytes it
/// took: the length that its first four bytes declare.
///
/// Fewer than four bytes, a declared length under five or beyond the bytes
/// at hand, or a value that runs past the document's end give
/// `TruncatedDocument`; a declared length over `MAX_DOCUMENT_SIZE` gives
/// `OversizeDocument`; a last byte that is not zero gives `BadTerminator`;
/// an unknown tag gives `BadTypeTag`; a name or string without terminator or
/// not in UTF-8 gives `BadString`.
pub fn decode(bytes: &[u8]) -> (r: Result<(Document, usize), BsonError>)
    ensures
        document_matches(r, parse_document(bytes@)),
        r matches Ok((_, n)) ==> n == read_u32(bytes@, 0) && 5 <= n <= bytes@.len() && n
            <= MAX_DOCUMENT_SIZE,
{
    decode_document(bytes)
}

} // verus!
