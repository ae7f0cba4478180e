//! Lifting what the backend gives back into values of documents.
//!
//! The backend stores documents as JSON. A JSON number without a
//! fractional part becomes a 32-bit integer where it fits, a 64-bit
//! integer where it fits that, and a double otherwise; any other number
//! becomes a double. A string of 24 hexadecimal digits under `_id`
//! becomes an object id.

use crate::bson::{str_eq, Bson, BsonView};
use vstd::prelude::*;
use vstd::utf8::encode_utf8;

verus! {

/// The value of a hexadecimal digit; `None` for any other byte.
pub open spec fn hex_value(b: u8) -> Option<u8> {
    if 48 <= b <= 57 {
        Some((b - 48) as u8)
    } else if 97 <= b <= 102 {
        Some((b - 87) as u8)
    } else if 65 <= b <= 70 {
        Some((b - 55) as u8)
    } else {
        None
    }
}

/// Whether a text is the text of an object id: 24 hexadecimal digits.
pub open spec fn is_object_id_text(b: Seq<u8>) -> bool {
    b.len() == 24 && forall|i: int| 0 <= i < 24 ==> hex_value(#[trigger] b[i]).is_some()
}

/// The byte that two hexadecimal digits spell.
pub open spec fn hex_pair(hi: u8, lo: u8) -> u8 {
    (hex_value(hi).unwrap() * 16 + hex_value(lo).unwrap()) as u8
}

/// The bytes that the text of an object id spells.
pub open spec fn object_id_of(b: Seq<u8>) -> Seq<u8> {
    Seq::new(12, |i: int| hex_pair(b[2 * i], b[2 * i + 1]))
}

/// What a JSON number becomes: `whole` is its value where it has no
/// fractional part and fits 128 bits, `bits` the double nearest to it.
pub open spec fn lifted_number(whole: Option<i128>, bits: u64) -> BsonView {
    match whole {
        Some(v) => if -0x8000_0000 < v < 0x8000_0000 {
            BsonView::Int32(v as i32)
        } else if -0x8000_0000_0000_0000 < v < 0x8000_0000_0000_0000 {
            BsonView::Int64(v as i64)
        } else {
            BsonView::Double(bits)
        },
        None => BsonView::Double(bits),
    }
}

/// What a JSON string under the field `field` becomes.
pub open spec fn lifted_string(field: Seq<char>, s: Seq<char>) -> BsonView {
    if field == "_id"@ && is_object_id_text(encode_utf8(s)) {
        BsonView::ObjectId(object_id_of(encode_utf8(s)))
    } else {
        BsonView::String(s)
    }
}

/// The value of a hexadecimal digit.
pub fn hex_digit_value(b: u8) -> (r: Option<u8>)
    ensures
        r == hex_value(b),
        r matches Some(v) ==> v < 16,
{
    if 48 <= b && b <= 57 {
        Some(b - 48)
    } else if 97 <= b && b <= 102 {
        Some(b - 87)
    } else if 65 <= b && b <= 70 {
        Some(b - 55)
    } else {
        None
    }
}

/// The bytes that the text of an object id spells; `None` for a text that
/// is not 24 hexadecimal digits.
pub fn parse_object_id(s: &str) -> (r: Option<[u8; 12]>)
    ensures
        match r {
            Some(id) => is_object_id_text(encode_utf8(s@)) && id@ == object_id_of(
                encode_utf8(s@),
            ),
            None => !is_object_id_text(encode_utf8(s@)),
        },
{
    let b = s.as_bytes();
    if b.len() != 24 {
        return None;
    }
    let mut out: [u8; 12] = [0;12];
    let mut i: usize = 0;
    while i < 12
        invariant
            i <= 12,
            b@.len() == 24,
            b@ == encode_utf8(s@),
            forall|j: int| 0 <= j < 2 * i ==> hex_value(#[trigger] b@[j]).is_some(),
            forall|j: int| 0 <= j < i ==> out@[j] == hex_pair(b@[2 * j], b@[2 * j + 1]),
        decreases 12 - i,
    {
        let hi = match hex_digit_value(b[2 * i]) {
            Some(v) => v,
            None => {
                return None;
            },
        };
        let lo = match hex_digit_value(b[2 * i + 1]) {
            Some(v) => v,
            None => {
                return None;
            },
        };
        out[i] = hi * 16 + lo;
        i = i + 1;
    }
    assert(out@ =~= object_id_of(b@));
    Some(out)
}

/// What a JSON number becomes.
pub fn lift_number(whole: Option<i128>, bits: u64) -> (r: Bson)
    ensures
        r@ == lifted_number(whole, bits),
{
    match whole {
        Some(v) => {
            if -0x8000_0000 < v && v < 0x8000_0000 {
                Bson::Int32(v as i32)
            } else if -0x8000_0000_0000_0000 < v && v < 0x8000_0000_0000_0000 {
                Bson::Int64(v as i64)
            } else {
                Bson::Double(bits)
            }
        },
        None => Bson::Double(bits),
    }
}

/// What a JSON string under the field `field` becomes.
pub fn lift_string(field: &str, s: &str) -> (r: Bson)
    ensures
        r@ == lifted_string(field@, s@),
{
    if str_eq(field, "_id") {
        match parse_object_id(s) {
            Some(id) => {
                return Bson::ObjectId(id);
            },
            None => {},
        }
    }
    Bson::String(s.to_owned())
}

} // verus!
