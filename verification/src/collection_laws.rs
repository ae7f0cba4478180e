//! What holds of updates whatever the collection: which documents an
//! update changes, that setting a field twice is setting it once, and that
//! incrementing twice by a number is incrementing once by its double.

use crate::bson::{with_entry, BsonView, DocView};
use crate::filter::{matches_filter, FilterError};
use crate::storage::{update_from, update_outcome, StorageError};
use crate::storage_laws::{lemma_set_one, plain_field, set_one};
use crate::update::{
    apply_fields, apply_operator, apply_operators, operator_count, updated, UpdateError,
};
use crate::update_laws::{can_double, doubled, lemma_inc_twice, lemma_set_twice};
use vstd::prelude::*;
use vstd::utf8::encode_utf8;

verus! {

/// Whether a filter selects a document.
pub open spec fn selects(filter: DocView, d: DocView) -> bool {
    matches_filter(filter, d) == Ok::<bool, FilterError>(true)
}

/// Whether `a` is what an update under a filter makes of the document
/// `d`: the updated document where the filter selects `d`, and `d` itself
/// where it does not.
pub open spec fn touched(filter: DocView, update: DocView, d: DocView, a: DocView) -> bool {
    match matches_filter(filter, d) {
        Ok(hit) => if hit {
            updated(d, update) == Ok::<DocView, UpdateError>(a)
        } else {
            a == d
        },
        Err(_) => false,
    }
}

/// Whether an update under a filter fails at the document `d`: the filter
/// cannot be evaluated on it, or it is selected and cannot be updated.
pub open spec fn stuck(filter: DocView, update: DocView, d: DocView) -> bool {
    matches_filter(filter, d) is Err || (selects(filter, d) && updated(d, update) is Err)
}

/// Index of the first document at or after `i` that the filter selects;
/// the number of documents where it selects none.
pub open spec fn first_selected(docs: Seq<DocView>, filter: DocView, i: int) -> int
    decreases docs.len() - i,
{
    if i < 0 || i >= docs.len() {
        docs.len() as int
    } else if selects(filter, docs[i]) {
        i
    } else {
        first_selected(docs, filter, i + 1)
    }
}

/// The first selected document is selected, and none before it is.
pub proof fn lemma_first_selected(docs: Seq<DocView>, filter: DocView, i: int)
    requires
        0 <= i <= docs.len(),
    ensures
        i <= first_selected(docs, filter, i) <= docs.len(),
        first_selected(docs, filter, i) < docs.len() ==> selects(
            filter,
            docs[first_selected(docs, filter, i)],
        ),
        forall|j: int| i <= j < first_selected(docs, filter, i) ==> !selects(filter, #[trigger] docs[j]),
    decreases docs.len() - i,
{
    if i < docs.len() && !selects(filter, docs[i]) {
        lemma_first_selected(docs, filter, i + 1);
    }
}

/// The first selected document is the one that is selected with none
/// selected before it.
pub proof fn lemma_first_selected_is(docs: Seq<DocView>, filter: DocView, i: int, p: int)
    requires
        0 <= i <= p <= docs.len(),
        p < docs.len() ==> selects(filter, docs[p]),
        forall|j: int| i <= j < p ==> !selects(filter, #[trigger] docs[j]),
    ensures
        first_selected(docs, filter, i) == p,
    decreases p - i,
{
    if i < p {
        assert(!selects(filter, docs[i]));
        lemma_first_selected_is(docs, filter, i + 1, p);
    }
}

/// What an update of every selected document makes of the documents from
/// index `i` on: each is touched, in its place, behind what was made
/// before; where the update fails, it is stuck at one of them.
pub proof fn lemma_update_all_from(
    docs: Seq<DocView>,
    filter: DocView,
    update: DocView,
    i: int,
    acc: Seq<DocView>,
    matched: nat,
    modified: nat,
)
    requires
        0 <= i <= docs.len(),
    ensures
        match update_from(docs, filter, update, true, i, acc, matched, modified) {
            Ok((after, _, _)) => {
                &&& after.len() == acc.len() + docs.len() - i
                &&& forall|k: int| 0 <= k < acc.len() ==> after[k] == acc[k]
                &&& forall|j: int|
                    i <= j < docs.len() ==> touched(
                        filter,
                        update,
                        #[trigger] docs[j],
                        after[acc.len() + j - i],
                    )
            },
            Err(_) => exists|j: int| i <= j < docs.len() && stuck(filter, update, #[trigger] docs[j]),
        },
    decreases docs.len() - i,
{
    if i < docs.len() {
        let d = docs[i];
        match matches_filter(filter, d) {
            Err(_) => {
                assert(stuck(filter, update, docs[i]));
            },
            Ok(hit) => {
                if !hit {
                    let next = acc.push(d);
                    lemma_update_all_from(docs, filter, update, i + 1, next, matched, modified);
                    lemma_step(docs, filter, update, true, i, acc, d, matched, modified);
                } else {
                    match updated(d, update) {
                        Err(_) => {
                            assert(stuck(filter, update, docs[i]));
                        },
                        Ok(n) => {
                            let next = acc.push(n);
                            let m2 = crate::storage::plus(modified, n != d);
                            lemma_update_all_from(
                                docs,
                                filter,
                                update,
                                i + 1,
                                next,
                                matched + 1,
                                m2,
                            );
                            lemma_step(docs, filter, update, true, i, acc, n, matched + 1, m2);
                        },
                    }
                }
            },
        }
    }
}

/// One step of the walk: what holds of the documents behind `acc` and the
/// document `x` holds of them behind `acc` with `x` at its end.
proof fn lemma_step(
    docs: Seq<DocView>,
    filter: DocView,
    update: DocView,
    multi: bool,
    i: int,
    acc: Seq<DocView>,
    x: DocView,
    matched: nat,
    modified: nat,
)
    requires
        0 <= i < docs.len(),
        touched(filter, update, docs[i], x),
        match update_from(docs, filter, update, multi, i + 1, acc.push(x), matched, modified) {
            Ok((after, _, _)) => {
                &&& after.len() == acc.len() + 1 + docs.len() - (i + 1)
                &&& forall|k: int| 0 <= k < acc.len() + 1 ==> after[k] == acc.push(x)[k]
                &&& forall|j: int|
                    i + 1 <= j < docs.len() ==> touched(
                        filter,
                        update,
                        #[trigger] docs[j],
                        after[acc.len() + 1 + j - (i + 1)],
                    )
            },
            Err(_) => exists|j: int|
                i + 1 <= j < docs.len() && stuck(filter, update, #[trigger] docs[j]),
        },
    ensures
        match update_from(docs, filter, update, multi, i + 1, acc.push(x), matched, modified) {
            Ok((after, _, _)) => {
                &&& after.len() == acc.len() + docs.len() - i
                &&& forall|k: int| 0 <= k < acc.len() ==> after[k] == acc[k]
                &&& forall|j: int|
                    i <= j < docs.len() ==> touched(
                        filter,
                        update,
                        #[trigger] docs[j],
                        after[acc.len() + j - i],
                    )
            },
            Err(_) => exists|j: int| i <= j < docs.len() && stuck(filter, update, #[trigger] docs[j]),
        },
{
    match update_from(docs, filter, update, multi, i + 1, acc.push(x), matched, modified) {
        Ok((after, _, _)) => {
            assert forall|k: int| 0 <= k < acc.len() implies after[k] == acc[k] by {
                assert(acc.push(x)[k] == acc[k]);
            }
            assert(after[acc.len() as int] == acc.push(x)[acc.len() as int]);
            assert forall|j: int| i <= j < docs.len() implies touched(
                filter,
                update,
                #[trigger] docs[j],
                after[acc.len() + j - i],
            ) by {
                if j > i {
                    assert(acc.len() + 1 + j - (i + 1) == acc.len() + j - i);
                }
            }
        },
        Err(_) => {
            let j = choose|j: int|
                i + 1 <= j < docs.len() && stuck(filter, update, #[trigger] docs[j]);
            assert(i <= j < docs.len() && stuck(filter, update, docs[j]));
        },
    }
}

/// The documents after an update that inserts nothing; those before it
/// where the update fails, which then changes nothing.
pub open spec fn state_after(docs: Seq<DocView>, filter: DocView, update: DocView, multi: bool) -> Seq<
    DocView,
> {
    match update_from(docs, filter, update, multi, 0, Seq::empty(), 0, 0) {
        Ok((after, _, _)) => after,
        Err(_) => docs,
    }
}

/// An update that inserts nothing leaves the documents of `state_after`.
pub proof fn lemma_state_after(
    docs: Seq<DocView>,
    filter: DocView,
    update: DocView,
    multi: bool,
    fresh: Seq<u8>,
)
    ensures
        match update_outcome(docs, filter, update, multi, false, fresh) {
            Ok((after, _, _, id)) => after == state_after(docs, filter, update, multi)
                && id.is_none(),
            Err(_) => state_after(docs, filter, update, multi) == docs,
        },
{
}

/// An update of every selected document changes each selected document as
/// the update says and leaves the others as they are, in their places:
/// none is added and none is removed. Where it fails, it is stuck at a
/// document.
pub proof fn lemma_update_every(docs: Seq<DocView>, filter: DocView, update: DocView)
    ensures
        match update_from(docs, filter, update, true, 0, Seq::empty(), 0, 0) {
            Ok((after, _, _)) => {
                &&& after.len() == docs.len()
                &&& forall|j: int|
                    0 <= j < docs.len() ==> touched(filter, update, #[trigger] docs[j], after[j])
            },
            Err(_) => exists|j: int| 0 <= j < docs.len() && stuck(filter, update, #[trigger] docs[j]),
        },
{
    lemma_update_all_from(docs, filter, update, 0, Seq::empty(), 0, 0);
}

/// Whether an update is one that changes nothing when it is applied a
/// second time, whatever the document.
pub open spec fn settles(update: DocView) -> bool {
    forall|d: DocView|
        (#[trigger] updated(d, update)) matches Ok(x) ==> updated(x, update) == Ok::<
            DocView,
            UpdateError,
        >(x)
}

/// An update of every selected document that settles changes nothing when
/// it is made a second time under the same filter, whatever the filter
/// reads.
pub proof fn lemma_settled_every(docs: Seq<DocView>, filter: DocView, update: DocView)
    requires
        settles(update),
    ensures
        state_after(state_after(docs, filter, update, true), filter, update, true) == state_after(
            docs,
            filter,
            update,
            true,
        ),
{
    lemma_update_every(docs, filter, update);
    let first = state_after(docs, filter, update, true);
    lemma_update_every(first, filter, update);
    match update_from(docs, filter, update, true, 0, Seq::empty(), 0, 0) {
        Err(_) => {},
        Ok((s1, _, _)) => {
            assert(first == s1);
            match update_from(s1, filter, update, true, 0, Seq::empty(), 0, 0) {
                Err(_) => {},
                Ok((s2, _, _)) => {
                    assert forall|j: int| 0 <= j < s1.len() implies s2[j] == s1[j] by {
                        assert(touched(filter, update, docs[j], s1[j]));
                        assert(touched(filter, update, s1[j], s2[j]));
                    }
                    assert(s2 =~= s1);
                },
            }
        },
    }
}

/// The documents with the one at `p` replaced by `x`; the documents
/// themselves where `p` is none of them.
pub open spec fn with_document(docs: Seq<DocView>, p: int, x: DocView) -> Seq<DocView> {
    if 0 <= p < docs.len() {
        docs.update(p, x)
    } else {
        docs
    }
}

/// Once an update of the first selected document has selected one, it
/// leaves the others as they are.
proof fn lemma_rest_stays(
    docs: Seq<DocView>,
    filter: DocView,
    update: DocView,
    i: int,
    acc: Seq<DocView>,
    matched: nat,
    modified: nat,
)
    requires
        0 <= i <= docs.len(),
        matched >= 1,
    ensures
        update_from(docs, filter, update, false, i, acc, matched, modified) == Ok::<
            (Seq<DocView>, nat, nat),
            StorageError,
        >((acc + docs.skip(i), matched, modified)),
    decreases docs.len() - i,
{
    if i < docs.len() {
        lemma_rest_stays(docs, filter, update, i + 1, acc.push(docs[i]), matched, modified);
        assert(acc.push(docs[i]) + docs.skip(i + 1) =~= acc + docs.skip(i));
    } else {
        assert(acc + docs.skip(i) =~= acc);
    }
}

/// What an update of the first selected document makes of the documents
/// from index `i` on, where it has selected none before: the first
/// selected one is updated in its place, and the others stay. Where the
/// update fails, it is stuck at a document that is not behind the first
/// selected one.
pub proof fn lemma_update_first_from(
    docs: Seq<DocView>,
    filter: DocView,
    update: DocView,
    i: int,
    acc: Seq<DocView>,
    modified: nat,
)
    requires
        0 <= i <= docs.len(),
    ensures
        ({
            let p = first_selected(docs, filter, i);
            match update_from(docs, filter, update, false, i, acc, 0, modified) {
                Ok((after, _, _)) => {
                    &&& forall|j: int|
                        i <= j < p ==> matches_filter(filter, #[trigger] docs[j]) == Ok::<
                            bool,
                            FilterError,
                        >(false)
                    &&& if p < docs.len() {
                        updated(docs[p], update) matches Ok(x) && after == acc + with_document(
                            docs,
                            p,
                            x,
                        ).skip(i)
                    } else {
                        after == acc + docs.skip(i)
                    }
                },
                Err(_) => exists|j: int|
                    i <= j <= p && j < docs.len() && stuck(filter, update, #[trigger] docs[j]),
            }
        }),
    decreases docs.len() - i,
{
    lemma_first_selected(docs, filter, i);
    let p = first_selected(docs, filter, i);
    if i < docs.len() {
        let d = docs[i];
        match matches_filter(filter, d) {
            Err(_) => {
                assert(stuck(filter, update, docs[i]));
            },
            Ok(hit) => {
                if !hit {
                    assert(!selects(filter, d));
                    lemma_update_first_from(docs, filter, update, i + 1, acc.push(d), modified);
                    lemma_first_selected(docs, filter, i + 1);
                    match update_from(docs, filter, update, false, i + 1, acc.push(d), 0, modified) {
                        Ok((after, _, _)) => {
                            if p < docs.len() {
                                let x = updated(docs[p], update)->Ok_0;
                                let w = with_document(docs, p, x);
                                assert(w[i] == d);
                                assert(acc.push(d) + w.skip(i + 1) =~= acc + w.skip(i));
                            } else {
                                assert(acc.push(d) + docs.skip(i + 1) =~= acc + docs.skip(i));
                            }
                        },
                        Err(_) => {
                            let j = choose|j: int|
                                i + 1 <= j <= p && j < docs.len() && stuck(
                                    filter,
                                    update,
                                    #[trigger] docs[j],
                                );
                            assert(i <= j <= p && j < docs.len() && stuck(filter, update, docs[j]));
                        },
                    }
                } else {
                    assert(selects(filter, d));
                    assert(p == i);
                    match updated(d, update) {
                        Err(_) => {
                            assert(stuck(filter, update, docs[i]));
                        },
                        Ok(x) => {
                            let m2 = crate::storage::plus(modified, x != d);
                            lemma_rest_stays(docs, filter, update, i + 1, acc.push(x), 1, m2);
                            let w = with_document(docs, p, x);
                            assert(w.skip(i + 1) =~= docs.skip(i + 1));
                            assert(acc.push(x) + docs.skip(i + 1) =~= acc + w.skip(i));
                        },
                    }
                }
            },
        }
    } else {
        assert(acc + docs.skip(i) =~= acc);
    }
}

/// An update of the first selected document changes that document as the
/// update says, in its place, and leaves the others as they are: none is
/// added and none is removed. No document before it is selected. Where
/// the update fails, it is stuck at a document that is not behind the
/// first selected one.
pub proof fn lemma_update_first(docs: Seq<DocView>, filter: DocView, update: DocView)
    ensures
        ({
            let p = first_selected(docs, filter, 0);
            match update_from(docs, filter, update, false, 0, Seq::empty(), 0, 0) {
                Ok((after, _, _)) => {
                    &&& forall|j: int|
                        0 <= j < p ==> matches_filter(filter, #[trigger] docs[j]) == Ok::<
                            bool,
                            FilterError,
                        >(false)
                    &&& if p < docs.len() {
                        updated(docs[p], update) matches Ok(x) && after == with_document(docs, p, x)
                    } else {
                        after == docs
                    }
                },
                Err(_) => exists|j: int|
                    0 <= j <= p && j < docs.len() && stuck(filter, update, #[trigger] docs[j]),
            }
        }),
{
    lemma_update_first_from(docs, filter, update, 0, Seq::empty(), 0);
    let p = first_selected(docs, filter, 0);
    lemma_first_selected(docs, filter, 0);
    match update_from(docs, filter, update, false, 0, Seq::empty(), 0, 0) {
        Ok((after, _, _)) => {
            if p < docs.len() {
                let x = updated(docs[p], update)->Ok_0;
                let w = with_document(docs, p, x);
                assert(Seq::<DocView>::empty() + w.skip(0) =~= w);
            } else {
                assert(Seq::<DocView>::empty() + docs.skip(0) =~= docs);
            }
        },
        Err(_) => {},
    }
}

/// Whether no document that the filter selects is deselected by the
/// update: what the update makes of it is selected too.
pub open spec fn stays_selected(docs: Seq<DocView>, filter: DocView, update: DocView) -> bool {
    forall|j: int|
        0 <= j < docs.len() && selects(filter, #[trigger] docs[j]) ==> (updated(
            docs[j],
            update,
        ) matches Ok(x) ==> selects(filter, x))
}

/// An update of the first selected document that settles changes nothing
/// when it is made a second time under the same filter, where the
/// document that it changed is still selected.
pub proof fn lemma_settled_first(docs: Seq<DocView>, filter: DocView, update: DocView)
    requires
        settles(update),
        stays_selected(docs, filter, update),
    ensures
        state_after(state_after(docs, filter, update, false), filter, update, false)
            == state_after(docs, filter, update, false),
{
    lemma_update_first(docs, filter, update);
    let first = state_after(docs, filter, update, false);
    lemma_update_first(first, filter, update);
    let p = first_selected(docs, filter, 0);
    lemma_first_selected(docs, filter, 0);
    match update_from(docs, filter, update, false, 0, Seq::empty(), 0, 0) {
        Err(_) => {},
        Ok((s1, _, _)) => {
            assert(first == s1);
            if p < docs.len() {
                let x = updated(docs[p], update)->Ok_0;
                assert(s1 == docs.update(p, x));
                assert(selects(filter, docs[p]));
                assert(selects(filter, x));
                assert forall|j: int| 0 <= j < p implies !selects(filter, #[trigger] s1[j]) by {
                    assert(s1[j] == docs[j]);
                    assert(matches_filter(filter, docs[j]) == Ok::<bool, FilterError>(false));
                }
                assert(s1[p] == x);
                lemma_first_selected_is(s1, filter, 0, p);
                assert(updated(x, update) == Ok::<DocView, UpdateError>(x));
                match update_from(s1, filter, update, false, 0, Seq::empty(), 0, 0) {
                    Err(_) => {},
                    Ok((s2, _, _)) => {
                        assert(s2 == s1.update(p, x));
                        assert(s2 =~= s1);
                    },
                }
            } else {
                assert(s1 == docs);
            }
        },
    }
}

/// An update that applies one operator to one field.
pub open spec fn one_operator(op: Seq<char>, f: Seq<char>, v: BsonView) -> DocView {
    seq![(op, BsonView::Document(seq![(f, v)]))]
}

/// An update of one operator on one field does to a document what the
/// operator does to the field.
pub proof fn lemma_one_operator(d: DocView, op: Seq<char>, f: Seq<char>, v: BsonView)
    requires
        op == "$set"@ || op == "$inc"@,
    ensures
        updated(d, one_operator(op, f, v)) == apply_operator(d, op, f, v),
{
    reveal_strlit("$set");
    reveal_strlit("$inc");
    assert(vstd::utf8::is_ascii_chars(op));
    vstd::utf8::is_ascii_chars_encode_utf8(op);
    assert(encode_utf8(op).len() == 4);
    assert(op[0] as u8 == encode_utf8(op)[0]);
    assert(crate::filter::is_operator_name(op));
    let u = one_operator(op, f, v);
    let fields = seq![(f, v)];
    reveal_with_fuel(operator_count, 3);
    reveal_with_fuel(apply_operators, 3);
    reveal_with_fuel(apply_fields, 3);
    assert(u.len() == 1 && u[0].0 == op && u[0].1 == BsonView::Document(fields));
    assert(operator_count(u, 0) == 1);
    assert(fields.len() == 1 && fields[0] == (f, v));
    assert(apply_fields(d, op, fields, 0) == apply_operator(d, op, f, v));
    assert(apply_operators(d, u, 0) == apply_operator(d, op, f, v));
}

/// Setting a field to a value settles: a second setting changes nothing.
pub proof fn lemma_set_settles(f: Seq<char>, v: BsonView)
    ensures
        settles(one_operator("$set"@, f, v)),
{
    let u = one_operator("$set"@, f, v);
    assert forall|d: DocView| (#[trigger] updated(d, u)) is Ok implies updated(
        updated(d, u)->Ok_0,
        u,
    ) == Ok::<DocView, UpdateError>(updated(d, u)->Ok_0) by {
        lemma_one_operator(d, "$set"@, f, v);
        lemma_set_twice(d, f, v);
        match updated(d, u) {
            Ok(x) => {
                lemma_one_operator(x, "$set"@, f, v);
            },
            Err(_) => {},
        }
    }
}

/// Update idempotence: an update that sets a field to a value, made a
/// second time under the same filter, leaves the collection as the first
/// one left it. Where only the first selected document is updated, this
/// holds where the update does not deselect a document: else the second
/// update would change the next selected one.
pub proof fn lemma_set_twice_in_collection(
    docs: Seq<DocView>,
    filter: DocView,
    f: Seq<char>,
    v: BsonView,
    multi: bool,
)
    requires
        multi || stays_selected(docs, filter, one_operator("$set"@, f, v)),
    ensures
        ({
            let update = one_operator("$set"@, f, v);
            let once = state_after(docs, filter, update, multi);
            &&& state_after(once, filter, update, multi) == once
            &&& once.len() == docs.len()
        }),
{
    let update = one_operator("$set"@, f, v);
    lemma_set_settles(f, v);
    if multi {
        lemma_settled_every(docs, filter, update);
        lemma_update_every(docs, filter, update);
    } else {
        lemma_settled_first(docs, filter, update);
        lemma_update_first(docs, filter, update);
    }
}

/// What setting a plain field makes of a collection: every document that
/// the filter selects, or the first one, has the value under the name,
/// in the place of the value that it had there or else at its end, and
/// its other entries as they were; the other documents are as they were,
/// and none is added or removed. The update fails only where the filter
/// cannot be evaluated.
pub proof fn lemma_set_in_collection(
    docs: Seq<DocView>,
    filter: DocView,
    f: Seq<char>,
    v: BsonView,
    multi: bool,
)
    requires
        plain_field(f),
    ensures
        match update_from(docs, filter, one_operator("$set"@, f, v), multi, 0, Seq::empty(), 0, 0) {
            Ok((after, _, _)) => {
                &&& after.len() == docs.len()
                &&& forall|j: int|
                    0 <= j < docs.len() ==> #[trigger] after[j] == (if selects(filter, docs[j]) && (
                    multi || j == first_selected(docs, filter, 0)) {
                        with_entry(docs[j], f, v)
                    } else {
                        docs[j]
                    })
            },
            Err(_) => exists|j: int|
                0 <= j < docs.len() && matches_filter(filter, #[trigger] docs[j]) is Err,
        },
{
    let update = one_operator("$set"@, f, v);
    assert(update == set_one(f, v));
    assert forall|d: DocView| #[trigger]
        updated(d, update) == Ok::<DocView, UpdateError>(with_entry(d, f, v)) by {
        lemma_set_one(d, f, v);
    }
    lemma_first_selected(docs, filter, 0);
    if multi {
        lemma_update_every(docs, filter, update);
        match update_from(docs, filter, update, true, 0, Seq::empty(), 0, 0) {
            Ok((after, _, _)) => {
                assert forall|j: int| 0 <= j < docs.len() implies #[trigger] after[j] == (if selects(
                    filter,
                    docs[j],
                ) {
                    with_entry(docs[j], f, v)
                } else {
                    docs[j]
                }) by {
                    assert(touched(filter, update, docs[j], after[j]));
                }
            },
            Err(_) => {
                let j = choose|j: int|
                    0 <= j < docs.len() && stuck(filter, update, #[trigger] docs[j]);
                assert(matches_filter(filter, docs[j]) is Err);
            },
        }
    } else {
        lemma_update_first(docs, filter, update);
        let p = first_selected(docs, filter, 0);
        match update_from(docs, filter, update, false, 0, Seq::empty(), 0, 0) {
            Ok((after, _, _)) => {
                assert forall|j: int| 0 <= j < docs.len() implies #[trigger] after[j] == (if selects(
                    filter,
                    docs[j],
                ) && j == p {
                    with_entry(docs[j], f, v)
                } else {
                    docs[j]
                }) by {}
            },
            Err(_) => {
                let j = choose|j: int|
                    0 <= j <= p && j < docs.len() && stuck(filter, update, #[trigger] docs[j]);
                assert(matches_filter(filter, docs[j]) is Err);
            },
        }
    }
}

/// Whether an update that inserts nothing goes through.
pub open spec fn goes_through(docs: Seq<DocView>, filter: DocView, update: DocView, multi: bool) -> bool {
    update_from(docs, filter, update, multi, 0, Seq::empty(), 0, 0) is Ok
}

/// Incrementing a field by an integer does to a document, in two steps,
/// what incrementing by twice the integer does in one.
proof fn lemma_inc_steps(d: DocView, x: DocView, y: DocView, f: Seq<char>, n: BsonView)
    requires
        can_double(n),
        updated(d, one_operator("$inc"@, f, n)) == Ok::<DocView, UpdateError>(x),
        updated(x, one_operator("$inc"@, f, n)) == Ok::<DocView, UpdateError>(y),
    ensures
        updated(d, one_operator("$inc"@, f, doubled(n))) == Ok::<DocView, UpdateError>(y),
{
    lemma_one_operator(d, "$inc"@, f, n);
    lemma_one_operator(x, "$inc"@, f, n);
    lemma_one_operator(d, "$inc"@, f, doubled(n));
    lemma_inc_twice(d, f, n);
}

/// Update idempotence: two updates that increment a field by an integer,
/// under the same filter, leave the collection as one update does that
/// increments the field by twice the integer. This holds where twice the
/// integer fits its width, both updates go through, and the first does
/// not deselect a document: else the second would reach other documents
/// than the first.
pub proof fn lemma_inc_twice_in_collection(
    docs: Seq<DocView>,
    filter: DocView,
    f: Seq<char>,
    n: BsonView,
    multi: bool,
)
    requires
        can_double(n),
        stays_selected(docs, filter, one_operator("$inc"@, f, n)),
        goes_through(docs, filter, one_operator("$inc"@, f, n), multi),
        goes_through(
            state_after(docs, filter, one_operator("$inc"@, f, n), multi),
            filter,
            one_operator("$inc"@, f, n),
            multi,
        ),
    ensures
        ({
            let by_n = one_operator("$inc"@, f, n);
            let by_twice = one_operator("$inc"@, f, doubled(n));
            &&& goes_through(docs, filter, by_twice, multi)
            &&& state_after(docs, filter, by_twice, multi) == state_after(
                state_after(docs, filter, by_n, multi),
                filter,
                by_n,
                multi,
            )
        }),
{
    let by_n = one_operator("$inc"@, f, n);
    let by_twice = one_operator("$inc"@, f, doubled(n));
    let s1 = state_after(docs, filter, by_n, multi);
    let s2 = state_after(s1, filter, by_n, multi);
    if multi {
        lemma_update_every(docs, filter, by_n);
        lemma_update_every(s1, filter, by_n);
        lemma_update_every(docs, filter, by_twice);
        assert forall|j: int| 0 <= j < docs.len() implies touched(
            filter,
            by_twice,
            #[trigger] docs[j],
            s2[j],
        ) by {
            assert(touched(filter, by_n, docs[j], s1[j]));
            assert(touched(filter, by_n, s1[j], s2[j]));
            if selects(filter, docs[j]) {
                assert(selects(filter, s1[j]));
                lemma_inc_steps(docs[j], s1[j], s2[j], f, n);
            }
        }
        match update_from(docs, filter, by_twice, true, 0, Seq::empty(), 0, 0) {
            Ok((t, _, _)) => {
                assert forall|j: int| 0 <= j < docs.len() implies t[j] == s2[j] by {
                    assert(touched(filter, by_twice, docs[j], t[j]));
                    assert(touched(filter, by_twice, docs[j], s2[j]));
                }
                assert(t =~= s2);
            },
            Err(_) => {
                let j = choose|j: int|
                    0 <= j < docs.len() && stuck(filter, by_twice, #[trigger] docs[j]);
                assert(touched(filter, by_twice, docs[j], s2[j]));
            },
        }
    } else {
        lemma_update_first(docs, filter, by_n);
        lemma_update_first(s1, filter, by_n);
        lemma_update_first(docs, filter, by_twice);
        lemma_first_selected(docs, filter, 0);
        let p = first_selected(docs, filter, 0);
        if p < docs.len() {
            let x = updated(docs[p], by_n)->Ok_0;
            assert(s1 == docs.update(p, x));
            assert(selects(filter, docs[p]));
            assert(selects(filter, x));
            assert forall|j: int| 0 <= j < p implies !selects(filter, #[trigger] s1[j]) by {
                assert(s1[j] == docs[j]);
                assert(matches_filter(filter, docs[j]) == Ok::<bool, FilterError>(false));
            }
            assert(s1[p] == x);
            lemma_first_selected_is(s1, filter, 0, p);
            let y = updated(x, by_n)->Ok_0;
            assert(s2 == s1.update(p, y));
            lemma_inc_steps(docs[p], x, y, f, n);
            match update_from(docs, filter, by_twice, false, 0, Seq::empty(), 0, 0) {
                Ok((t, _, _)) => {
                    assert(t == docs.update(p, y));
                    assert(t =~= s2);
                },
                Err(_) => {
                    let j = choose|j: int|
                        0 <= j <= p && j < docs.len() && stuck(filter, by_twice, #[trigger] docs[j]);
                    if j < p {
                        assert(matches_filter(filter, docs[j]) == Ok::<bool, FilterError>(false));
                    }
                },
            }
        } else {
            assert(s1 == docs);
            match update_from(docs, filter, by_twice, false, 0, Seq::empty(), 0, 0) {
                Ok((t, _, _)) => {},
                Err(_) => {
                    let j = choose|j: int|
                        0 <= j <= p && j < docs.len() && stuck(filter, by_twice, #[trigger] docs[j]);
                    lemma_update_first_from(docs, filter, by_n, 0, Seq::empty(), 0);
                    assert(matches_filter(filter, docs[j]) == Ok::<bool, FilterError>(false));
                },
            }
        }
    }
}

} // verus!
