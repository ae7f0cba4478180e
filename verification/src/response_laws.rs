//! What holds of the error responses: each of them has a binary form, so
//! that a request that was read is always answered.

use crate::bson::{BsonView, DocView};
use crate::codec::{
    cstring, encode_document, encode_elements, encode_value, entries_wf, frame, key_ok,
    legal_document, type_tag, value_wf, MAX_DOCUMENT_SIZE,
};
use crate::mongodb_commands::{error_response, OK_ZERO};
use vstd::bytes::{lemma_auto_spec_u32_to_from_le_bytes, lemma_auto_spec_u64_to_from_le_bytes};
use vstd::prelude::*;
use vstd::utf8::{encode_utf8, is_ascii_chars, is_ascii_chars_encode_utf8};

verus! {

/// A name of plain characters without the character zero can be written,
/// with one byte for each character.
pub proof fn lemma_plain_name(k: Seq<char>)
    requires
        is_ascii_chars(k),
        forall|i: int| 0 <= i < k.len() ==> #[trigger] k[i] != '\0',
    ensures
        key_ok(k),
        encode_utf8(k).len() == k.len(),
{
    is_ascii_chars_encode_utf8(k);
    let b = encode_utf8(k);
    assert forall|i: int| 0 <= i < b.len() implies #[trigger] b[i] != 0u8 by {
        assert(k[i] != '\0');
        assert(k[i] as u8 == b[i]);
    }
}

/// The names of the fields of an error response can be written.
proof fn lemma_error_names()
    ensures
        key_ok("ok"@) && encode_utf8("ok"@).len() == 2,
        key_ok("errmsg"@) && encode_utf8("errmsg"@).len() == 6,
        key_ok("code"@) && encode_utf8("code"@).len() == 4,
        key_ok("codeName"@) && encode_utf8("codeName"@).len() == 8,
{
    reveal_strlit("ok");
    reveal_strlit("errmsg");
    reveal_strlit("code");
    reveal_strlit("codeName");
    lemma_plain_name("ok"@);
    lemma_plain_name("errmsg"@);
    lemma_plain_name("code"@);
    lemma_plain_name("codeName"@);
}

/// An error response has a binary form wherever its texts are not longer
/// than a message may be.
pub proof fn lemma_error_response_is_legal(code: i32, code_name: Seq<char>, message: Seq<char>)
    requires
        encode_utf8(code_name).len() + encode_utf8(message).len() <= 1000000,
    ensures
        legal_document(error_response(code, code_name, message)),
{
    lemma_error_names();
    lemma_auto_spec_u32_to_from_le_bytes();
    lemma_auto_spec_u64_to_from_le_bytes();
    let e0 = ("ok"@, BsonView::Double(OK_ZERO));
    let e1 = ("errmsg"@, BsonView::String(message));
    let e2 = ("code"@, BsonView::Int32(code));
    let e3 = ("codeName"@, BsonView::String(code_name));
    let d = error_response(code, code_name, message);
    let d0 = Seq::<(Seq<char>, BsonView)>::empty();
    let d1 = seq![e0];
    let d2 = seq![e0, e1];
    let d3 = seq![e0, e1, e2];
    assert(d =~= seq![e0, e1, e2, e3]);
    assert(d.drop_last() =~= d3 && d.last() == e3);
    assert(d3.drop_last() =~= d2 && d3.last() == e2);
    assert(d2.drop_last() =~= d1 && d2.last() == e1);
    assert(d1.drop_last() =~= d0 && d1.last() == e0);
    assert(encode_elements(d0).len() == 0);
    assert(encode_elements(d1).len() == 1 + 3 + 8) by {
        assert(encode_elements(d1) == encode_elements(d0) + seq![type_tag(e0.1)] + cstring(e0.0)
            + encode_value(e0.1));
    }
    assert(encode_elements(d2).len() == 12 + 1 + 7 + 4 + encode_utf8(message).len() + 1) by {
        assert(encode_elements(d2) == encode_elements(d1) + seq![type_tag(e1.1)] + cstring(e1.0)
            + encode_value(e1.1));
    }
    assert(encode_elements(d3).len() == 25 + encode_utf8(message).len() + 1 + 5 + 4) by {
        assert(encode_elements(d3) == encode_elements(d2) + seq![type_tag(e2.1)] + cstring(e2.0)
            + encode_value(e2.1));
    }
    assert(encode_elements(d).len() == 35 + encode_utf8(message).len() + 1 + 9 + 4
        + encode_utf8(code_name).len() + 1) by {
        assert(encode_elements(d) == encode_elements(d3) + seq![type_tag(e3.1)] + cstring(e3.0)
            + encode_value(e3.1));
    }
    assert(encode_document(d).len() == encode_elements(d).len() + 5);
    assert forall|i: int| 0 <= i < d.len() implies key_ok((#[trigger] d[i]).0) && value_wf(
        d[i].1,
    ) by {
        if i == 0 {
            assert(d[i] == e0);
        } else if i == 1 {
            assert(d[i] == e1);
        } else if i == 2 {
            assert(d[i] == e2);
        } else {
            assert(d[i] == e3);
        }
    }
    assert(entries_wf(d));
}

} // verus!
