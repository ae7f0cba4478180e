//! Update operators, applied to a copy of a stored document.
//!
//! An update document either consists of operators (`$set`, `$unset`,
//! `$inc`, `$rename`, `$push`, `$pull`), each with the fields it applies to,
//! or of plain fields, which replace the document and keep its `_id`. A
//! field name is a path: its parts, separated by dots, lead from document
//! to nested document.

use crate::bson::{
    has_key, lemma_position, lemma_view_array, lemma_view_document, lookup, position, str_eq,
    values_view, with_entry, without_entry, Bson, BsonView, DocView, Document,
};
use crate::codec::bytes_to_string;
use crate::filter::{equal_values, is_operator_name, starts_with_dollar, values_equal};
use vstd::prelude::*;
use vstd::slice::slice_subrange;
use vstd::utf8::{decode_utf8, encode_utf8, valid_utf8};

verus! {

/// Why an update cannot be applied.
#[derive(Debug, Clone, Copy, PartialEq, Eq, Structural)]
pub enum UpdateError {
    /// Operators and plain fields in one update document.
    MixedUpdate,
    /// An operator that is not known.
    UnsupportedOperator,
    /// An operator whose argument has the wrong type.
    BadOperand,
    /// A path leads through a value that is not a document.
    PathConflict,
    /// `$inc` on a value that is not a number.
    NotNumeric,
    /// `$inc` beyond the range of 64-bit integers.
    Overflow,
    /// `$inc` on or by a double.
    DoubleArithmetic,
    /// `$push` or `$pull` on a value that is not an array.
    NotAnArray,
}

/// A path: the names that lead from a document to a value inside it.
pub type Path = Seq<Seq<char>>;

/// Index of the first dot at or after `i`; the length of `b` where there
/// is none.
pub open spec fn dot_from(b: Seq<u8>, i: int) -> int
    decreases b.len() - i,
{
    if i < 0 || i >= b.len() {
        b.len() as int
    } else if b[i] == 46u8 {
        i
    } else {
        dot_from(b, i + 1)
    }
}

/// The parts of `b` between its dots, from index `start` on.
pub open spec fn segments_from(b: Seq<u8>, start: int) -> Seq<Seq<u8>>
    decreases b.len() - start,
{
    if start < 0 || start > b.len() {
        Seq::empty()
    } else {
        let i = dot_from(b, start);
        if i >= b.len() {
            seq![b.subrange(start, b.len() as int)]
        } else if i < start {
            Seq::empty()
        } else {
            seq![b.subrange(start, i)] + segments_from(b, i + 1)
        }
    }
}

/// Whether every part is valid UTF-8.
pub open spec fn all_valid(s: Seq<Seq<u8>>) -> bool {
    forall|i: int| 0 <= i < s.len() ==> valid_utf8(#[trigger] s[i])
}

/// The path that a field name spells: its parts between the dots.
pub open spec fn path_of(key: Seq<char>) -> Path {
    let segs = segments_from(encode_utf8(key), 0);
    if all_valid(segs) {
        Seq::new(segs.len(), |i: int| decode_utf8(segs[i]))
    } else {
        seq![key]
    }
}

/// The value at the end of a path.
pub open spec fn get_in(d: DocView, path: Path) -> Option<BsonView>
    decreases path.len(),
{
    if path.len() == 0 {
        None
    } else if path.len() == 1 {
        lookup(d, path[0])
    } else {
        match lookup(d, path[0]) {
            Some(BsonView::Document(x)) => get_in(x, path.drop_first()),
            _ => None,
        }
    }
}

/// The document with `v` at the end of a path. Documents that the path
/// leads through and that are missing are made; a value on the way that is
/// not a document gives `PathConflict`.
pub open spec fn set_in(d: DocView, path: Path, v: BsonView) -> Result<DocView, UpdateError>
    decreases path.len(),
{
    if path.len() == 0 {
        Ok(d)
    } else if path.len() == 1 {
        Ok(with_entry(d, path[0], v))
    } else {
        match lookup(d, path[0]) {
            None => match set_in(Seq::empty(), path.drop_first(), v) {
                Ok(x) => Ok(with_entry(d, path[0], BsonView::Document(x))),
                Err(e) => Err(e),
            },
            Some(BsonView::Document(x)) => match set_in(x, path.drop_first(), v) {
                Ok(y) => Ok(with_entry(d, path[0], BsonView::Document(y))),
                Err(e) => Err(e),
            },
            Some(_) => Err(UpdateError::PathConflict),
        }
    }
}

/// The document without the value at the end of a path; the document
/// itself where the path leads nowhere.
pub open spec fn remove_in(d: DocView, path: Path) -> DocView
    decreases path.len(),
{
    if path.len() == 0 {
        d
    } else if path.len() == 1 {
        without_entry(d, path[0])
    } else {
        match lookup(d, path[0]) {
            Some(BsonView::Document(x)) => with_entry(
                d,
                path[0],
                BsonView::Document(remove_in(x, path.drop_first())),
            ),
            _ => d,
        }
    }
}

/// The integer inside a value.
pub open spec fn int_of(v: BsonView) -> Option<int> {
    match v {
        BsonView::Int32(i) => Some(i as int),
        BsonView::Int64(i) => Some(i as int),
        _ => None,
    }
}

/// The sum of two integers as a value: 32 bits wide where both operands
/// are and the sum fits, 64 bits wide otherwise.
pub open spec fn int_value(sum: int, narrow: bool) -> Result<BsonView, UpdateError> {
    if narrow && i32::MIN <= sum <= i32::MAX {
        Ok(BsonView::Int32(sum as i32))
    } else if i64::MIN <= sum <= i64::MAX {
        Ok(BsonView::Int64(sum as i64))
    } else {
        Err(UpdateError::Overflow)
    }
}

/// The value of a field after `$inc` by `delta`: the sum, or `delta`
/// itself where the field is missing.
pub open spec fn inc_value(cur: Option<BsonView>, delta: BsonView) -> Result<
    BsonView,
    UpdateError,
> {
    if !(delta is Int32 || delta is Int64 || delta is Double) {
        Err(UpdateError::BadOperand)
    } else {
        match cur {
            None => Ok(delta),
            Some(c) => {
                if c is Double || (delta is Double && (c is Int32 || c is Int64)) {
                    Err(UpdateError::DoubleArithmetic)
                } else {
                    match (int_of(c), int_of(delta)) {
                        (Some(a), Some(b)) => int_value(a + b, c is Int32 && delta is Int32),
                        _ => Err(UpdateError::NotNumeric),
                    }
                }
            },
        }
    }
}

/// The items that do not equal `v`, in their order.
pub open spec fn without_equal(items: Seq<BsonView>, v: BsonView) -> Seq<BsonView>
    decreases items.len(),
{
    if items.len() == 0 {
        items
    } else if values_equal(items.last(), v) {
        without_equal(items.drop_last(), v)
    } else {
        without_equal(items.drop_last(), v).push(items.last())
    }
}

/// The document after one operator has been applied to one field.
pub open spec fn apply_operator(d: DocView, op: Seq<char>, field: Seq<char>, arg: BsonView) -> Result<
    DocView,
    UpdateError,
> {
    let p = path_of(field);
    if op == "$set"@ {
        set_in(d, p, arg)
    } else if op == "$unset"@ {
        Ok(remove_in(d, p))
    } else if op == "$inc"@ {
        match inc_value(get_in(d, p), arg) {
            Ok(v) => set_in(d, p, v),
            Err(e) => Err(e),
        }
    } else if op == "$rename"@ {
        match arg {
            BsonView::String(g) => match get_in(d, p) {
                None => Ok(d),
                Some(v) => set_in(remove_in(d, p), path_of(g), v),
            },
            _ => Err(UpdateError::BadOperand),
        }
    } else if op == "$push"@ {
        match get_in(d, p) {
            None => set_in(d, p, BsonView::Array(seq![arg])),
            Some(BsonView::Array(items)) => set_in(d, p, BsonView::Array(items.push(arg))),
            Some(_) => Err(UpdateError::NotAnArray),
        }
    } else if op == "$pull"@ {
        match get_in(d, p) {
            None => Ok(d),
            Some(BsonView::Array(items)) => set_in(
                d,
                p,
                BsonView::Array(without_equal(items, arg)),
            ),
            Some(_) => Err(UpdateError::NotAnArray),
        }
    } else {
        Err(UpdateError::UnsupportedOperator)
    }
}

/// The document after one operator has been applied to the fields of
/// `fields` from index `i` on, in order.
pub open spec fn apply_fields(d: DocView, op: Seq<char>, fields: DocView, i: int) -> Result<
    DocView,
    UpdateError,
>
    decreases fields.len() - i,
{
    if i < 0 || i >= fields.len() {
        Ok(d)
    } else {
        match apply_operator(d, op, fields[i].0, fields[i].1) {
            Err(e) => Err(e),
            Ok(x) => apply_fields(x, op, fields, i + 1),
        }
    }
}

/// Whether a name is one of the update operators.
pub open spec fn is_update_operator(op: Seq<char>) -> bool {
    op == "$set"@ || op == "$unset"@ || op == "$inc"@ || op == "$rename"@ || op == "$push"@ || op
        == "$pull"@
}

/// The document after the operators of `update` from index `i` on have
/// been applied, in order. A name that is no update operator gives
/// `UnsupportedOperator`, whatever its argument; an argument that is no
/// document gives `BadOperand`.
pub open spec fn apply_operators(d: DocView, update: DocView, i: int) -> Result<
    DocView,
    UpdateError,
>
    decreases update.len() - i,
{
    if i < 0 || i >= update.len() {
        Ok(d)
    } else {
        if !is_update_operator(update[i].0) {
            Err(UpdateError::UnsupportedOperator)
        } else {
            match update[i].1 {
                BsonView::Document(fields) => match apply_fields(d, update[i].0, fields, 0) {
                    Err(e) => Err(e),
                    Ok(x) => apply_operators(x, update, i + 1),
                },
                _ => Err(UpdateError::BadOperand),
            }
        }
    }
}

/// Number of entries of `u`, from index `i` on, whose name is an operator.
pub open spec fn operator_count(u: DocView, i: int) -> int
    decreases u.len() - i,
{
    if i < 0 || i >= u.len() {
        0
    } else if is_operator_name(u[i].0) {
        1 + operator_count(u, i + 1)
    } else {
        operator_count(u, i + 1)
    }
}

/// The entries of `u` without those named `_id`.
pub open spec fn without_id(u: DocView) -> DocView
    decreases u.len(),
{
    if u.len() == 0 {
        u
    } else if u.last().0 == "_id"@ {
        without_id(u.drop_last())
    } else {
        without_id(u.drop_last()).push(u.last())
    }
}

/// The document that replaces `d`: the fields of `u`, with the `_id` of
/// `d` in front where `d` has one.
pub open spec fn replaced(d: DocView, u: DocView) -> DocView {
    match lookup(d, "_id"@) {
        Some(id) => seq![("_id"@, id)] + without_id(u),
        None => u,
    }
}

/// The document after an update.
///
/// An update document of operators is applied operator by operator and
/// field by field, in order; one of plain fields replaces the document; one
/// that holds both gives `MixedUpdate`.
pub open spec fn updated(d: DocView, u: DocView) -> Result<DocView, UpdateError> {
    let n = operator_count(u, 0);
    if n == 0 {
        Ok(replaced(d, u))
    } else if n == u.len() {
        apply_operators(d, u, 0)
    } else {
        Err(UpdateError::MixedUpdate)
    }
}

/// The names of a list of strings.
pub open spec fn path_view(p: Seq<String>) -> Path {
    Seq::new(p.len(), |i: int| p[i]@)
}

proof fn lemma_dot_skip(b: Seq<u8>, start: int, i: int)
    requires
        0 <= start <= i <= b.len(),
        forall|j: int| start <= j < i ==> b[j] != 46u8,
    ensures
        dot_from(b, start) == dot_from(b, i),
    decreases i - start,
{
    if start < i {
        lemma_dot_skip(b, start + 1, i);
    }
}

/// The path that a field name spells.
#[verifier::loop_isolation(false)]
pub fn split_path(key: &str) -> (r: Vec<String>)
    ensures
        path_view(r@) == path_of(key@),
        r@.len() >= 1,
{
    let b = key.as_bytes();
    let ghost bs = b@;
    let mut out: Vec<String> = Vec::new();
    let ghost mut raw: Seq<Seq<u8>> = Seq::empty();
    let mut start: usize = 0;
    let mut i: usize = 0;
    let mut ok = true;
    proof {
        assert(raw + segments_from(bs, 0) =~= segments_from(bs, 0));
    }
    while i < b.len()
        invariant
            start <= i <= b.len(),
            forall|j: int| start <= j < i ==> bs[j] != 46u8,
            raw + segments_from(bs, start as int) == segments_from(bs, 0),
            ok ==> out@.len() == raw.len() && all_valid(raw) && forall|k: int|
                0 <= k < raw.len() ==> (#[trigger] out@[k])@ == decode_utf8(raw[k]),
            !ok ==> exists|k: int| 0 <= k < raw.len() && !valid_utf8(#[trigger] raw[k]),
        decreases b.len() - i,
    {
        if b[i] == 46 {
            proof {
                lemma_dot_skip(bs, start as int, i as int);
                assert(dot_from(bs, i as int) == i);
            }
            let seg = slice_subrange(b, start, i);
            let ghost before = raw;
            proof {
                raw = raw.push(seg@);
                assert(raw + segments_from(bs, i + 1) =~= before + (seq![seg@] + segments_from(
                    bs,
                    i + 1,
                )));
            }
            if ok {
                match bytes_to_string(seg) {
                    Some(s) => {
                        out.push(s);
                    },
                    None => {
                        ok = false;
                        assert(!valid_utf8(raw[raw.len() - 1]));
                    },
                }
            } else {
                proof {
                    let k = choose|k: int|
                        0 <= k < before.len() && !valid_utf8(#[trigger] before[k]);
                    assert(raw[k] == before[k]);
                }
            }
            start = i + 1;
        }
        i = i + 1;
    }
    proof {
        lemma_dot_skip(bs, start as int, i as int);
        assert(dot_from(bs, i as int) == bs.len());
    }
    let seg = slice_subrange(b, start, b.len());
    let ghost before = raw;
    proof {
        raw = raw.push(seg@);
        assert(raw =~= segments_from(bs, 0));
    }
    if ok {
        match bytes_to_string(seg) {
            Some(s) => {
                out.push(s);
                assert(path_view(out@) =~= path_of(key@));
                return out;
            },
            None => {
                assert(!valid_utf8(raw[raw.len() - 1]));
            },
        }
    } else {
        proof {
            let k = choose|k: int| 0 <= k < before.len() && !valid_utf8(#[trigger] before[k]);
            assert(raw[k] == before[k]);
        }
    }
    let mut single: Vec<String> = Vec::new();
    single.push(key.to_owned());
    assert(path_view(single@) =~= seq![key@]);
    single
}

/// The value at the end of the path `path` from index `from` on.
pub fn get_path<'a>(doc: &'a Document, path: &Vec<String>, from: usize) -> (r: Option<&'a Bson>)
    requires
        from < path@.len(),
    ensures
        match r {
            Some(v) => get_in(doc@, path_view(path@).skip(from as int)) == Some(v@),
            None => get_in(doc@, path_view(path@).skip(from as int)).is_none(),
        },
    decreases path@.len() - from,
{
    let ghost p = path_view(path@).skip(from as int);
    assert(p[0] == path@[from as int]@);
    assert(p.drop_first() =~= path_view(path@).skip(from + 1));
    let found = doc.get(path[from].as_str());
    if from == path.len() - 1 {
        found
    } else {
        match found {
            Some(Bson::Document(x)) => {
                proof {
                    lemma_view_document(*x);
                }
                get_path(x, path, from + 1)
            },
            _ => None,
        }
    }
}

/// Sets `v` at the end of the path `path` from index `from` on.
pub fn set_path(doc: Document, path: &Vec<String>, from: usize, v: Bson) -> (r: Result<
    Document,
    UpdateError,
>)
    requires
        from < path@.len(),
    ensures
        match r {
            Ok(d) => set_in(doc@, path_view(path@).skip(from as int), v@) == Ok::<
                DocView,
                UpdateError,
            >(d@),
            Err(e) => set_in(doc@, path_view(path@).skip(from as int), v@) == Err::<
                DocView,
                UpdateError,
            >(e),
        },
    decreases path@.len() - from,
{
    let ghost p = path_view(path@).skip(from as int);
    assert(p[0] == path@[from as int]@);
    assert(p.drop_first() =~= path_view(path@).skip(from + 1));
    let mut doc = doc;
    let key = path[from].as_str();
    if from == path.len() - 1 {
        doc.insert(key, v);
        return Ok(doc);
    }
    match doc.find(key) {
        None => {
            match set_path(Document::new(), path, from + 1, v) {
                Ok(inner) => {
                    proof {
                        lemma_view_document(inner);
                    }
                    doc.insert(key, Bson::Document(inner));
                    Ok(doc)
                },
                Err(e) => Err(e),
            }
        },
        Some(i) => {
            let ghost before = doc@;
            let (k, old) = doc.entries.remove(i);
            match old {
                Bson::Document(x) => {
                    proof {
                        lemma_view_document(x);
                    }
                    match set_path(x, path, from + 1, v) {
                        Ok(inner) => {
                            proof {
                                lemma_view_document(inner);
                                lemma_position(before, key@);
                            }
                            doc.entries.insert(i, (k, Bson::Document(inner)));
                            assert(doc@ =~= before.update(
                                i as int,
                                (key@, BsonView::Document(inner@)),
                            ));
                            Ok(doc)
                        },
                        Err(e) => Err(e),
                    }
                },
                _ => Err(UpdateError::PathConflict),
            }
        },
    }
}

/// Removes the value at the end of the path `path` from index `from` on.
pub fn remove_path(doc: Document, path: &Vec<String>, from: usize) -> (r: Document)
    requires
        from < path@.len(),
    ensures
        r@ == remove_in(doc@, path_view(path@).skip(from as int)),
    decreases path@.len() - from,
{
    let ghost p = path_view(path@).skip(from as int);
    assert(p[0] == path@[from as int]@);
    assert(p.drop_first() =~= path_view(path@).skip(from + 1));
    let mut doc = doc;
    let key = path[from].as_str();
    if from == path.len() - 1 {
        let _ = doc.remove(key);
        return doc;
    }
    match doc.find(key) {
        None => doc,
        Some(i) => {
            let ghost before = doc@;
            let is_doc = match &doc.entries[i].1 {
                Bson::Document(_) => true,
                _ => false,
            };
            if !is_doc {
                return doc;
            }
            let (k, old) = doc.entries.remove(i);
            match old {
                Bson::Document(x) => {
                    proof {
                        lemma_view_document(x);
                        lemma_position(before, key@);
                    }
                    let inner = remove_path(x, path, from + 1);
                    proof {
                        lemma_view_document(inner);
                    }
                    doc.entries.insert(i, (k, Bson::Document(inner)));
                    assert(doc@ =~= before.update(i as int, (key@, BsonView::Document(inner@))));
                    doc
                },
                other => {
                    doc.entries.insert(i, (k, other));
                    assert(doc@ =~= before);
                    doc
                },
            }
        },
    }
}

/// The model of a value that may be missing.
pub open spec fn optional_view(v: Option<&Bson>) -> Option<BsonView> {
    match v {
        Some(x) => Some(x@),
        None => None,
    }
}

/// The value of a field after `$inc` by `delta`.
pub fn increment(cur: Option<&Bson>, delta: &Bson) -> (r: Result<Bson, UpdateError>)
    ensures
        match r {
            Ok(v) => inc_value(optional_view(cur), delta@) == Ok::<BsonView, UpdateError>(v@),
            Err(e) => inc_value(optional_view(cur), delta@) == Err::<BsonView, UpdateError>(e),
        },
{
    let (b, delta_narrow, delta_double): (i64, bool, bool) = match delta {
        Bson::Int32(i) => (*i as i64, true, false),
        Bson::Int64(i) => (*i, false, false),
        Bson::Double(_) => (0, false, true),
        _ => {
            return Err(UpdateError::BadOperand);
        },
    };
    let c = match cur {
        None => {
            return Ok(delta.clone_value());
        },
        Some(c) => c,
    };
    let (a, cur_narrow): (i64, bool) = match c {
        Bson::Int32(i) => (*i as i64, true),
        Bson::Int64(i) => (*i, false),
        Bson::Double(_) => {
            return Err(UpdateError::DoubleArithmetic);
        },
        _ => {
            if delta_double {
                return Err(UpdateError::NotNumeric);
            }
            return Err(UpdateError::NotNumeric);
        },
    };
    if delta_double {
        return Err(UpdateError::DoubleArithmetic);
    }
    let sum: i128 = (a as i128) + (b as i128);
    if cur_narrow && delta_narrow && sum >= -2147483648 && sum <= 2147483647 {
        Ok(Bson::Int32(sum as i32))
    } else if sum >= -9223372036854775808 && sum <= 9223372036854775807 {
        Ok(Bson::Int64(sum as i64))
    } else {
        Err(UpdateError::Overflow)
    }
}

/// Copies of the items that do not equal `v`.
pub fn pull_items(items: &Vec<Bson>, v: &Bson) -> (r: Vec<Bson>)
    ensures
        values_view(r@) == without_equal(values_view(items@), v@),
{
    let ghost iv = values_view(items@);
    let mut out: Vec<Bson> = Vec::new();
    let mut i: usize = 0;
    while i < items.len()
        invariant
            i <= items.len(),
            iv == values_view(items@),
            values_view(out@) == without_equal(iv.take(i as int), v@),
        decreases items.len() - i,
    {
        proof {
            assert(iv.take(i + 1).drop_last() =~= iv.take(i as int));
            assert(iv.take(i + 1).last() == items@[i as int]@);
        }
        if !equal_values(&items[i], v) {
            let ghost before = values_view(out@);
            out.push(items[i].clone_value());
            assert(values_view(out@) =~= before.push(items@[i as int]@));
        }
        i = i + 1;
    }
    assert(iv.take(items@.len() as int) =~= iv);
    out
}

/// Copies of the items, followed by a copy of `v`.
pub fn push_item(items: &Vec<Bson>, v: &Bson) -> (r: Vec<Bson>)
    ensures
        values_view(r@) == values_view(items@).push(v@),
{
    let mut out: Vec<Bson> = Vec::new();
    let mut i: usize = 0;
    while i < items.len()
        invariant
            i <= items.len(),
            out@.len() == i,
            forall|j: int| 0 <= j < i ==> out@[j]@ == items@[j]@,
        decreases items.len() - i,
    {
        out.push(items[i].clone_value());
        i = i + 1;
    }
    out.push(v.clone_value());
    assert(values_view(out@) =~= values_view(items@).push(v@));
    out
}

/// Applies one operator to one field.
pub fn apply_operator_to(doc: Document, op: &str, field: &str, arg: &Bson) -> (r: Result<
    Document,
    UpdateError,
>)
    ensures
        match r {
            Ok(d) => apply_operator(doc@, op@, field@, arg@) == Ok::<DocView, UpdateError>(d@),
            Err(e) => apply_operator(doc@, op@, field@, arg@) == Err::<DocView, UpdateError>(e),
        },
{
    let path = split_path(field);
    proof {
        assert(path_view(path@).skip(0) =~= path_view(path@));
    }
    if str_eq(op, "$set") {
        set_path(doc, &path, 0, arg.clone_value())
    } else if str_eq(op, "$unset") {
        Ok(remove_path(doc, &path, 0))
    } else if str_eq(op, "$inc") {
        let next = match increment(get_path(&doc, &path, 0), arg) {
            Ok(v) => v,
            Err(e) => {
                return Err(e);
            },
        };
        set_path(doc, &path, 0, next)
    } else if str_eq(op, "$rename") {
        match arg.as_str() {
            Some(g) => {
                let moved = match get_path(&doc, &path, 0) {
                    None => {
                        return Ok(doc);
                    },
                    Some(v) => v.clone_value(),
                };
                let target = split_path(g);
                proof {
                    assert(path_view(target@).skip(0) =~= path_view(target@));
                }
                let without = remove_path(doc, &path, 0);
                set_path(without, &target, 0, moved)
            },
            None => Err(UpdateError::BadOperand),
        }
    } else if str_eq(op, "$push") {
        let next = match get_path(&doc, &path, 0) {
            None => {
                let mut items: Vec<Bson> = Vec::new();
                items.push(arg.clone_value());
                proof {
                    lemma_view_array(items);
                    assert(values_view(items@) =~= seq![arg@]);
                }
                Bson::Array(items)
            },
            Some(Bson::Array(items)) => {
                let longer = push_item(items, arg);
                proof {
                    lemma_view_array(*items);
                    lemma_view_array(longer);
                }
                Bson::Array(longer)
            },
            Some(_) => {
                return Err(UpdateError::NotAnArray);
            },
        };
        set_path(doc, &path, 0, next)
    } else if str_eq(op, "$pull") {
        let next = match get_path(&doc, &path, 0) {
            None => {
                return Ok(doc);
            },
            Some(Bson::Array(items)) => {
                let fewer = pull_items(items, arg);
                proof {
                    lemma_view_array(*items);
                    lemma_view_array(fewer);
                }
                Bson::Array(fewer)
            },
            Some(_) => {
                return Err(UpdateError::NotAnArray);
            },
        };
        set_path(doc, &path, 0, next)
    } else {
        Err(UpdateError::UnsupportedOperator)
    }
}

/// Number of entries of an update document whose name is an operator.
pub fn count_operators(update: &Document) -> (n: usize)
    ensures
        n == operator_count(update@, 0),
        n <= update@.len(),
{
    let mut n: usize = 0;
    let mut i: usize = update.len();
    while i > 0
        invariant
            i <= update@.len(),
            n == operator_count(update@, i as int),
            n <= update@.len() - i,
        decreases i,
    {
        i = i - 1;
        if starts_with_dollar(update.key_at(i)) {
            n = n + 1;
        }
    }
    n
}

/// The document that replaces `doc`.
pub fn replace_document(doc: &Document, update: &Document) -> (r: Document)
    ensures
        r@ == replaced(doc@, update@),
{
    match doc.get("_id") {
        None => update.clone_document(),
        Some(id) => {
            let mut out = Document::new();
            out.push("_id".to_owned(), id.clone_value());
            let ghost head = out@;
            let mut i: usize = 0;
            while i < update.len()
                invariant
                    i <= update@.len(),
                    head == seq![("_id"@, id@)],
                    out@ == head + without_id(update@.take(i as int)),
                decreases update@.len() - i,
            {
                proof {
                    assert(update@.take(i + 1).drop_last() =~= update@.take(i as int));
                    assert(update@.take(i + 1).last() == update@[i as int]);
                }
                if !str_eq(update.key_at(i), "_id") {
                    let ghost before = out@;
                    out.push(update.key_at(i).to_owned(), update.value_at(i).clone_value());
                    assert(out@ =~= head + without_id(update@.take(i as int)).push(
                        update@[i as int],
                    ));
                }
                i = i + 1;
            }
            assert(update@.take(update@.len() as int) =~= update@);
            out
        },
    }
}

/// Whether a name is one of the update operators.
pub fn is_known_operator(op: &str) -> (r: bool)
    ensures
        r == is_update_operator(op@),
{
    str_eq(op, "$set") || str_eq(op, "$unset") || str_eq(op, "$inc") || str_eq(op, "$rename")
        || str_eq(op, "$push") || str_eq(op, "$pull")
}

/// The document after an update. The stored document is left as it is:
/// the update is applied to a copy.
#[verifier::loop_isolation(false)]
pub fn apply_update(doc: &Document, update: &Document) -> (r: Result<Document, UpdateError>)
    ensures
        match r {
            Ok(d) => updated(doc@, update@) == Ok::<DocView, UpdateError>(d@),
            Err(e) => updated(doc@, update@) == Err::<DocView, UpdateError>(e),
        },
{
    let n = count_operators(update);
    if n == 0 {
        return Ok(replace_document(doc, update));
    }
    if n != update.len() {
        return Err(UpdateError::MixedUpdate);
    }
    let mut cur = doc.clone_document();
    let mut i: usize = 0;
    while i < update.len()
        invariant
            i <= update@.len(),
            apply_operators(cur@, update@, i as int) == apply_operators(doc@, update@, 0),
        decreases update@.len() - i,
    {
        let op = update.key_at(i);
        if !is_known_operator(op) {
            return Err(UpdateError::UnsupportedOperator);
        }
        let fields = match update.value_at(i).as_document() {
            Some(f) => f,
            None => {
                return Err(UpdateError::BadOperand);
            },
        };
        let mut j: usize = 0;
        let ghost start = cur@;
        while j < fields.len()
            invariant
                j <= fields@.len(),
                apply_fields(cur@, op@, fields@, j as int) == apply_fields(start, op@, fields@, 0),
            decreases fields@.len() - j,
        {
            match apply_operator_to(cur, op, fields.key_at(j), fields.value_at(j)) {
                Ok(d) => {
                    cur = d;
                },
                Err(e) => {
                    return Err(e);
                },
            }
            j = j + 1;
        }
        i = i + 1;
    }
    Ok(cur)
}

} // verus!
