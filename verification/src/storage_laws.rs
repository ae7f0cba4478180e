//! What holds of queries and updates whatever the collection: a query
//! returns the documents that its filter matches, and an update that
//! inserts where it selects nothing does so once.

use crate::bson::{has_key, lookup, position, position_from, with_entry, BsonView, DocView};
use crate::filter::{
    is_operator_doc, is_operator_name, matches_entry, matches_filter, matches_from, values_equal,
};
use crate::storage::{
    fixed_value, seed_from, stored_id, update_from, update_outcome, upserted, with_id,
    StorageError,
};
use crate::update::{
    apply_fields, apply_operator, apply_operators, dot_from, operator_count, path_of,
    segments_from, set_in, updated,
};
use crate::update_laws::lemma_position_is;
use vstd::prelude::*;
use vstd::utf8::{decode_utf8, encode_utf8, valid_utf8};

verus! {

/// Whether a field name holds no dot.
pub open spec fn plain_field(f: Seq<char>) -> bool {
    forall|i: int| 0 <= i < encode_utf8(f).len() ==> #[trigger] encode_utf8(f)[i] != 46u8
}

proof fn lemma_no_dot(b: Seq<u8>, i: int)
    requires
        0 <= i <= b.len(),
        forall|j: int| 0 <= j < b.len() ==> #[trigger] b[j] != 46u8,
    ensures
        dot_from(b, i) == b.len(),
    decreases b.len() - i,
{
    if i < b.len() {
        assert(b[i] != 46u8);
        lemma_no_dot(b, i + 1);
    }
}

/// The path of a field name without a dot is the name itself.
pub proof fn lemma_plain_path(f: Seq<char>)
    requires
        plain_field(f),
    ensures
        path_of(f) == seq![f],
{
    let b = encode_utf8(f);
    lemma_no_dot(b, 0);
    let segs = segments_from(b, 0);
    assert(b.subrange(0, b.len() as int) =~= b);
    assert(segs =~= seq![b]);
    vstd::utf8::encode_utf8_valid_utf8(f);
    vstd::utf8::encode_utf8_decode_utf8(f);
    assert(valid_utf8(segs[0]));
    assert(path_of(f) =~= seq![f]);
}

/// The name `_id` and the operator `$set` as bytes.
proof fn lemma_names()
    ensures
        !is_operator_name("_id"@),
        is_operator_name("$set"@),
        "_id"@.len() == 3,
        "$set"@ != "$unset"@,
        "$set"@ != "$inc"@,
{
    reveal_strlit("_id");
    reveal_strlit("$set");
    reveal_strlit("$unset");
    reveal_strlit("$inc");
    let a = "_id"@;
    assert(vstd::utf8::is_ascii_chars(a));
    vstd::utf8::is_ascii_chars_encode_utf8(a);
    assert(encode_utf8(a).len() == 3);
    assert(a[0] as u8 == encode_utf8(a)[0]);
    let s = "$set"@;
    assert(vstd::utf8::is_ascii_chars(s));
    vstd::utf8::is_ascii_chars_encode_utf8(s);
    assert(encode_utf8(s).len() == 4);
    assert(s[0] as u8 == encode_utf8(s)[0]);
    assert("$set"@.len() == 4 && "$unset"@.len() == 6);
    assert("$set"@[1] != "$inc"@[1]);
}

/// An update that sets one plain field to a value.
pub open spec fn set_one(f: Seq<char>, v: BsonView) -> DocView {
    seq![("$set"@, BsonView::Document(seq![(f, v)]))]
}

/// The filter that selects the documents with the `_id` `x`.
pub open spec fn by_id(x: BsonView) -> DocView {
    seq![("_id"@, x)]
}

/// Setting one plain field of a document writes the value under the name.
pub proof fn lemma_set_one(d: DocView, f: Seq<char>, v: BsonView)
    requires
        plain_field(f),
    ensures
        updated(d, set_one(f, v)) == Ok::<DocView, crate::update::UpdateError>(
            with_entry(d, f, v),
        ),
{
    lemma_names();
    lemma_plain_path(f);
    let u = set_one(f, v);
    let fields = seq![(f, v)];
    reveal_with_fuel(operator_count, 3);
    reveal_with_fuel(apply_operators, 3);
    reveal_with_fuel(apply_fields, 3);
    reveal_with_fuel(set_in, 2);
    assert(u.len() == 1);
    assert(u[0].0 == "$set"@);
    assert(operator_count(u, 0) == 1);
    assert(apply_operator(d, "$set"@, f, v) == set_in(d, seq![f], v));
    assert(set_in(d, seq![f], v) == Ok::<DocView, crate::update::UpdateError>(
        with_entry(d, f, v),
    ));
    assert(apply_fields(d, "$set"@, fields, 0) == Ok::<DocView, crate::update::UpdateError>(
        with_entry(d, f, v),
    ));
    assert(u[0].1 == BsonView::Document(fields));
    assert(apply_operators(d, u, 0) == Ok::<DocView, crate::update::UpdateError>(
        with_entry(d, f, v),
    ));
}

/// Whether the filter `by_id(x)` selects a document.
proof fn lemma_by_id_matches(x: BsonView, d: DocView)
    requires
        !is_operator_doc(x),
    ensures
        matches_filter(by_id(x), d) == Ok::<bool, crate::filter::FilterError>(
            lookup(d, "_id"@) matches Some(v) && values_equal(v, x),
        ),
{
    lemma_names();
    reveal_with_fuel(matches_from, 3);
    let f = by_id(x);
    assert(f[0].0 == "_id"@ && f[0].1 == x);
    assert(matches_entry("_id"@, x, d) == Ok::<bool, crate::filter::FilterError>(
        lookup(d, "_id"@) matches Some(v) && values_equal(v, x),
    ));
}

/// An update by `_id` that sets a field and is asked to insert where it
/// selects nothing inserts, into a collection without documents, one
/// document that holds the `_id` and the field, and reports that it
/// selected and changed none. The same update on the collection that this
/// leaves selects that document, changes nothing, and leaves the
/// collection as it is.
///
/// The `_id` has to be a value that equals itself as filters see it, and
/// no document of operators.
pub proof fn lemma_upsert(
    x: BsonView,
    f: Seq<char>,
    v: BsonView,
    multi: bool,
    fresh: Seq<u8>,
    again: Seq<u8>,
)
    requires
        !is_operator_doc(x),
        values_equal(x, x),
        plain_field(f),
        f != "_id"@,
    ensures
        update_outcome(Seq::empty(), by_id(x), set_one(f, v), multi, true, fresh) == Ok::<
            (Seq<DocView>, nat, nat, Option<BsonView>),
            StorageError,
        >((seq![seq![("_id"@, x), (f, v)]], 0, 0, Some(x))),
        update_outcome(
            seq![seq![("_id"@, x), (f, v)]],
            by_id(x),
            set_one(f, v),
            multi,
            true,
            again,
        ) == Ok::<(Seq<DocView>, nat, nat, Option<BsonView>), StorageError>(
            (seq![seq![("_id"@, x), (f, v)]], 1, 0, None),
        ),
{
    lemma_names();
    let filter = by_id(x);
    let update = set_one(f, v);
    let seed: DocView = seq![("_id"@, x)];
    let d: DocView = seq![("_id"@, x), (f, v)];
    let none = Seq::<DocView>::empty();

    // the first call
    reveal_with_fuel(update_from, 3);
    reveal_with_fuel(seed_from, 3);
    assert(update_from(none, filter, update, multi, 0, none, 0, 0) == Ok::<
        (Seq<DocView>, nat, nat),
        StorageError,
    >((none, 0, 0)));
    assert(fixed_value(x) == Some(x));
    let empty = Seq::<(Seq<char>, BsonView)>::empty();
    assert(position_from(empty, "_id"@, 0) == 0);
    assert(!has_key(empty, "_id"@));
    assert(with_entry(empty, "_id"@, x) =~= seed);
    assert(seed_from(filter, 0, empty) == seed);
    lemma_set_one(seed, f, v);
    lemma_position_is(seed, "_id"@, 0);
    assert(position_from(seed, f, 0) == 1) by {
        reveal_with_fuel(position_from, 3);
    }
    assert(!has_key(seed, f));
    assert(with_entry(seed, f, v) =~= d);
    lemma_position_is(d, "_id"@, 0);
    assert(with_id(d, fresh) == d);
    assert(upserted(filter, update, fresh) == Ok::<DocView, StorageError>(d));
    assert(stored_id(d, fresh) == x);
    assert(none.push(d) =~= seq![d]);

    // the second call
    let docs = seq![d];
    lemma_by_id_matches(x, d);
    assert(lookup(d, "_id"@) == Some(x));
    lemma_set_one(d, f, v);
    assert(position_from(d, f, 0) == 1) by {
        reveal_with_fuel(position_from, 3);
    }
    assert(has_key(d, f));
    assert(with_entry(d, f, v) =~= d);
    assert(none.push(d) =~= docs);
    assert(update_from(docs, filter, update, multi, 1, docs, 1, 0) == Ok::<
        (Seq<DocView>, nat, nat),
        StorageError,
    >((docs, 1, 0)));
    assert(update_from(docs, filter, update, multi, 0, none, 0, 0) == Ok::<
        (Seq<DocView>, nat, nat),
        StorageError,
    >((docs, 1, 0)));
}

/// Filter equivalence: a query without skip, limit and projection returns
/// a document if and only if the collection holds it and the filter
/// matches it, whatever the order that it asks for.
pub proof fn lemma_find_returns_what_matches(
    docs: Seq<DocView>,
    filter: DocView,
    sort: Option<DocView>,
    d: DocView,
)
    ensures
        match crate::storage::found(docs, filter, sort, 0, None, None) {
            Ok(r) => r.contains(d) <==> docs.contains(d) && matches_filter(filter, d) == Ok::<
                bool,
                crate::filter::FilterError,
            >(true),
            Err(_) => true,
        },
{
    let hit = docs.contains(d) && matches_filter(filter, d) == Ok::<
        bool,
        crate::filter::FilterError,
    >(true);
    match crate::aggregation::match_stage(filter, docs) {
        Err(_) => {},
        Ok(m) => {
            assert(m == crate::filter::select(filter, docs));
            crate::filter::lemma_select(filter, docs);
            assert(m.contains(d) <==> hit);
            match sort {
                None => {
                    assert(m.skip(0) =~= m);
                    assert(crate::storage::found(docs, filter, sort, 0, None, None) == Ok::<
                        Seq<DocView>,
                        StorageError,
                    >(m));
                },
                Some(s) => {
                    match crate::aggregation::run_sort(Some(BsonView::Document(s)), m) {
                        Err(_) => {},
                        Ok(sorted) => {
                            crate::sort_laws::lemma_sort(s, m);
                            assert(sorted.skip(0) =~= sorted);
                            assert(crate::storage::found(docs, filter, sort, 0, None, None)
                                == Ok::<Seq<DocView>, StorageError>(sorted));
                            sorted.to_multiset_ensures();
                            m.to_multiset_ensures();
                            assert(sorted.contains(d) <==> sorted.to_multiset().count(d) > 0);
                            assert(m.contains(d) <==> m.to_multiset().count(d) > 0);
                        },
                    }
                },
            }
        },
    }
}

} // verus!
