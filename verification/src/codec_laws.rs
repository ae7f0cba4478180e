//! What is written can be read back: for every document with a binary form,
//! reading that form returns the document, entry for entry and in order.

use crate::bson::{BsonView, DocView};
use crate::codec::{
    cstring, encode_document, encode_element, encode_elements, encode_items, encode_value,
    entries_wf, entry_values, first_zero, first_zero_from, frame, items_wf, key_ok,
    legal_document, lemma_first_zero_skip, parse_cstring, parse_document, parse_element,
    parse_elements, parse_value, prepend, read_u32, read_u64, type_tag, value_wf, BsonError,
    MAX_DOCUMENT_SIZE,
};
use crate::text::{decimal, lemma_decimal_no_zero_byte};
use vstd::bytes::{
    lemma_auto_spec_u32_to_from_le_bytes, lemma_auto_spec_u64_to_from_le_bytes,
    spec_u32_to_le_bytes, spec_u64_to_le_bytes,
};
use vstd::prelude::*;
use vstd::utf8::{encode_utf8, encode_utf8_decode_utf8, encode_utf8_valid_utf8};

verus! {

/// The document that an array is written as: each item under its index.
pub open spec fn array_document(a: Seq<BsonView>) -> DocView {
    Seq::new(a.len(), |i: int| (decimal(i as nat), a[i]))
}

/// A name that was written is read back, whatever follows it.
pub proof fn lemma_parse_cstring(k: Seq<char>, rest: Seq<u8>)
    requires
        key_ok(k),
    ensures
        parse_cstring(cstring(k) + rest) == Some((k, encode_utf8(k).len() as int + 1)),
{
    let e = encode_utf8(k);
    let b = cstring(k) + rest;
    let n = e.len() as int;
    assert forall|j: int| 0 <= j < n implies b[j] != 0u8 by {
        assert(b[j] == e[j]);
        if e[j] == 0u8 {
            assert(e.contains(0u8));
        }
    }
    lemma_first_zero_skip(b, n);
    assert(b[n] == 0u8);
    assert(first_zero_from(b, n) == n);
    assert(b.subrange(0, n) =~= e);
    encode_utf8_valid_utf8(k);
    encode_utf8_decode_utf8(k);
}

/// The elements of a document are its first element followed by the
/// elements of the rest.
pub proof fn lemma_elements_first(d: DocView)
    requires
        d.len() > 0,
    ensures
        encode_elements(d) == encode_element(d[0].0, d[0].1) + encode_elements(d.drop_first()),
    decreases d.len(),
{
    if d.len() == 1 {
        assert(d.drop_last() =~= Seq::<(Seq<char>, BsonView)>::empty());
        assert(d.drop_first() =~= Seq::<(Seq<char>, BsonView)>::empty());
        assert(encode_elements(d) =~= encode_element(d[0].0, d[0].1) + encode_elements(
            d.drop_first(),
        ));
    } else {
        let front = d.drop_last();
        lemma_elements_first(front);
        assert(front.drop_first() =~= d.drop_first().drop_last());
        assert(front[0] == d[0]);
        assert(d.drop_first().last() == d.last());
        let x = seq![type_tag(d.last().1)] + cstring(d.last().0) + encode_value(d.last().1);
        let e0 = encode_element(d[0].0, d[0].1);
        let mid = encode_elements(front.drop_first());
        assert(encode_elements(d) == encode_elements(front) + seq![type_tag(d.last().1)] + cstring(
            d.last().0,
        ) + encode_value(d.last().1));
        assert(encode_elements(d.drop_first()) == mid + seq![type_tag(d.last().1)] + cstring(
            d.last().0,
        ) + encode_value(d.last().1));
        assert(encode_elements(d) =~= e0 + encode_elements(d.drop_first()));
    }
}

/// The items of an array are the elements of the document that it is
/// written as.
pub proof fn lemma_items_as_elements(a: Seq<BsonView>)
    ensures
        encode_items(a) == encode_elements(array_document(a)),
    decreases a.len(),
{
    if a.len() == 0 {
    } else {
        lemma_items_as_elements(a.drop_last());
        assert(array_document(a).drop_last() =~= array_document(a.drop_last()));
        assert(array_document(a).last() == (decimal((a.len() - 1) as nat), a.last()));
    }
}

/// The document that an array is written as can be written where the
/// array's items can.
pub proof fn lemma_array_document_wf(a: Seq<BsonView>)
    requires
        items_wf(a),
    ensures
        entries_wf(array_document(a)),
        entry_values(array_document(a)) == a,
{
    let d = array_document(a);
    assert forall|i: int| 0 <= i < d.len() implies key_ok((#[trigger] d[i]).0) && value_wf(
        d[i].1,
    ) by {
        lemma_decimal_no_zero_byte(i as nat);
        assert(value_wf(a[i]));
    }
    assert(entry_values(d) =~= a);
}

/// A value without nested entries that was written is read back, whatever
/// follows it.
proof fn lemma_parse_scalar(v: BsonView, rest: Seq<u8>)
    requires
        value_wf(v),
        encode_value(v).len() <= MAX_DOCUMENT_SIZE,
        !(v is Document),
        !(v is Array),
    ensures
        parse_value(type_tag(v), encode_value(v) + rest) == Ok::<(BsonView, int), BsonError>(
            (v, encode_value(v).len() as int),
        ),
{
    lemma_auto_spec_u32_to_from_le_bytes();
    lemma_auto_spec_u64_to_from_le_bytes();
    let b = encode_value(v) + rest;
    match v {
        BsonView::Double(x) => {
            assert(b.subrange(0, 8) =~= spec_u64_to_le_bytes(x));
        },
        BsonView::String(s) => {
            let e = encode_utf8(s);
            let n = (e.len() + 1) as int;
            assert(b.subrange(0, 4) =~= spec_u32_to_le_bytes(n as u32));
            assert(b.subrange(4, 4 + n - 1) =~= e);
            assert(b[4 + n - 1] == 0u8);
            encode_utf8_valid_utf8(s);
            encode_utf8_decode_utf8(s);
        },
        BsonView::Binary(subtype, bytes) => {
            let n = bytes.len() as int;
            assert(b.subrange(0, 4) =~= spec_u32_to_le_bytes(n as u32));
            assert(b.subrange(5, 5 + n) =~= bytes);
            assert(b[4] == subtype);
        },
        BsonView::ObjectId(id) => {
            assert(b.subrange(0, 12) =~= id);
        },
        BsonView::Boolean(x) => {
            assert(b[0] == (if x {
                1u8
            } else {
                0u8
            }));
        },
        BsonView::DateTime(t) => {
            assert(b.subrange(0, 8) =~= spec_u64_to_le_bytes(t as u64));
            assert((t as u64) as i64 == t) by (bit_vector);
        },
        BsonView::Null => {},
        BsonView::Regex(p, o) => {
            let np = encode_utf8(p).len() as int + 1;
            assert(b =~= cstring(p) + (cstring(o) + rest));
            lemma_parse_cstring(p, cstring(o) + rest);
            assert(b.subrange(np, b.len() as int) =~= cstring(o) + rest);
            lemma_parse_cstring(o, rest);
        },
        BsonView::Int32(i) => {
            assert(b.subrange(0, 4) =~= spec_u32_to_le_bytes(i as u32));
            assert((i as u32) as i32 == i) by (bit_vector);
        },
        BsonView::Timestamp(time, increment) => {
            assert(b.subrange(0, 4) =~= spec_u32_to_le_bytes(increment));
            assert(b.subrange(4, 8) =~= spec_u32_to_le_bytes(time));
        },
        BsonView::Int64(i) => {
            assert(b.subrange(0, 8) =~= spec_u64_to_le_bytes(i as u64));
            assert((i as u64) as i64 == i) by (bit_vector);
        },
        _ => {},
    }
}

/// A framed body is read back as a document where its elements are read
/// back, whatever follows the frame.
proof fn lemma_parse_frame(body: Seq<u8>, d: DocView, rest: Seq<u8>)
    requires
        body.len() + 5 <= MAX_DOCUMENT_SIZE,
        parse_elements(body) == Ok::<DocView, BsonError>(d),
    ensures
        parse_document(frame(body) + rest) == Ok::<(DocView, int), BsonError>(
            (d, body.len() as int + 5),
        ),
        frame(body).len() == body.len() + 5,
{
    lemma_auto_spec_u32_to_from_le_bytes();
    let n = body.len() as int + 5;
    let b = frame(body) + rest;
    assert(b.subrange(0, 4) =~= spec_u32_to_le_bytes(n as u32));
    assert(read_u32(b, 0) == n as u32);
    assert(b[n - 1] == 0u8);
    assert(b.subrange(4, n - 1) =~= body);
}

/// A value that was written is read back, whatever follows it.
pub proof fn lemma_parse_value(v: BsonView, rest: Seq<u8>)
    requires
        value_wf(v),
        encode_value(v).len() <= MAX_DOCUMENT_SIZE,
    ensures
        parse_value(type_tag(v), encode_value(v) + rest) == Ok::<(BsonView, int), BsonError>(
            (v, encode_value(v).len() as int),
        ),
    decreases encode_value(v).len(),
{
    lemma_auto_spec_u32_to_from_le_bytes();
    match v {
        BsonView::Document(d) => {
            let body = encode_elements(d);
            assert(frame(body).len() == body.len() + 5);
            lemma_parse_elements(d);
            lemma_parse_frame(body, d, rest);
        },
        BsonView::Array(a) => {
            let body = encode_items(a);
            assert(frame(body).len() == body.len() + 5);
            lemma_items_as_elements(a);
            lemma_array_document_wf(a);
            lemma_parse_elements(array_document(a));
            lemma_parse_frame(body, array_document(a), rest);
        },
        _ => {
            lemma_parse_scalar(v, rest);
        },
    }
}

/// The elements of a document that were written are read back.
pub proof fn lemma_parse_elements(d: DocView)
    requires
        entries_wf(d),
        encode_elements(d).len() + 5 <= MAX_DOCUMENT_SIZE,
    ensures
        parse_elements(encode_elements(d)) == Ok::<DocView, BsonError>(d),
    decreases encode_elements(d).len(),
{
    if d.len() == 0 {
        assert(d =~= Seq::<(Seq<char>, BsonView)>::empty());
    } else {
        lemma_elements_first(d);
        let k = d[0].0;
        let v = d[0].1;
        let tail = d.drop_first();
        let tb = encode_elements(tail);
        let b = encode_elements(d);
        let nk = encode_utf8(k).len() as int + 1;
        let nv = encode_value(v).len() as int;
        assert(key_ok(d[0].0) && value_wf(d[0].1));
        assert(b =~= seq![type_tag(v)] + cstring(k) + encode_value(v) + tb);
        assert(b.len() == 1 + nk + nv + tb.len());
        assert(b.subrange(1, b.len() as int) =~= cstring(k) + (encode_value(v) + tb));
        lemma_parse_cstring(k, encode_value(v) + tb);
        assert(b.subrange(1 + nk, b.len() as int) =~= encode_value(v) + tb);
        lemma_parse_value(v, tb);
        assert(b[0] == type_tag(v));
        assert(parse_element(b) == Ok::<(Seq<char>, BsonView, int), BsonError>(
            (k, v, 1 + nk + nv),
        ));
        assert(b.subrange(1 + nk + nv, b.len() as int) =~= tb);
        assert forall|i: int| 0 <= i < tail.len() implies key_ok((#[trigger] tail[i]).0)
            && value_wf(tail[i].1) by {
            assert(tail[i] == d[i + 1]);
        }
        lemma_parse_elements(tail);
        assert(seq![(k, v)] + tail =~= d);
    }
}

/// Round trip: reading the binary form of a legal document returns the
/// document, with every entry in its place, and takes all of its bytes and
/// no more, whatever follows them.
pub proof fn lemma_decode_encode_prefix(d: DocView, rest: Seq<u8>)
    requires
        legal_document(d),
    ensures
        parse_document(encode_document(d) + rest) == Ok::<(DocView, int), BsonError>(
            (d, encode_document(d).len() as int),
        ),
{
    lemma_auto_spec_u32_to_from_le_bytes();
    let body = encode_elements(d);
    assert(frame(body).len() == body.len() + 5);
    lemma_parse_elements(d);
    lemma_parse_frame(body, d, rest);
}

/// Round trip: reading the binary form of a legal document returns the
/// document, with every entry in its place.
pub proof fn lemma_decode_encode(d: DocView)
    requires
        legal_document(d),
    ensures
        parse_document(encode_document(d)) == Ok::<(DocView, int), BsonError>(
            (d, encode_document(d).len() as int),
        ),
{
    lemma_decode_encode_prefix(d, Seq::empty());
    assert(encode_document(d) + Seq::<u8>::empty() =~= encode_document(d));
}

} // verus!
