//! What holds of sorting whatever the documents: the sorted list holds the
//! documents that came in, each as often as before, and no document in it
//! is followed by one that stands before it.

use crate::aggregation::{
    compare_documents, direction_of, insert_sorted, order_values, reversed, run_sort,
    sorted_prefix, type_rank,
};
use crate::bson::{lookup, BsonView, DocView};
use crate::filter::{compare_bytes_from, compare_values, is_number};
use crate::numeric::{compare_ints, compare_numbers, Comparison};
use vstd::prelude::*;
use vstd::seq_lib::to_multiset_build;

verus! {

/// A sorted list with one more document holds the documents of the list
/// and the new one.
pub proof fn lemma_insert_keeps_all(sorted: Seq<DocView>, d: DocView, s: DocView)
    ensures
        insert_sorted(sorted, d, s).to_multiset() == sorted.to_multiset().insert(d),
        insert_sorted(sorted, d, s).len() == sorted.len() + 1,
    decreases sorted.len(),
{
    if sorted.len() == 0 || compare_documents(sorted.last(), d, s, 0) != Comparison::Greater {
        to_multiset_build(sorted, d);
    } else {
        let front = sorted.drop_last();
        let last = sorted.last();
        lemma_insert_keeps_all(front, d, s);
        to_multiset_build(insert_sorted(front, d, s), last);
        to_multiset_build(front, last);
        assert(front.push(last) =~= sorted);
        assert(insert_sorted(sorted, d, s).to_multiset() =~= sorted.to_multiset().insert(d));
    }
}

/// Sorting is a rearrangement: the sorted list holds every document as
/// often as the list that came in.
pub proof fn lemma_sort_is_permutation(docs: Seq<DocView>, s: DocView, n: int)
    requires
        0 <= n <= docs.len(),
    ensures
        sorted_prefix(docs, s, n).to_multiset() == docs.take(n).to_multiset(),
        sorted_prefix(docs, s, n).len() == n,
    decreases n,
{
    if n == 0 {
        assert(docs.take(0) =~= Seq::<DocView>::empty());
        assert(sorted_prefix(docs, s, 0) =~= Seq::<DocView>::empty());
    } else {
        lemma_sort_is_permutation(docs, s, n - 1);
        lemma_insert_keeps_all(sorted_prefix(docs, s, n - 1), docs[n - 1], s);
        to_multiset_build(docs.take(n - 1), docs[n - 1]);
        assert(docs.take(n - 1).push(docs[n - 1]) =~= docs.take(n));
    }
}

/// Two byte strings compared the other way round stand the other way
/// round.
pub proof fn lemma_bytes_flip(x: Seq<u8>, y: Seq<u8>, i: int)
    requires
        0 <= i,
    ensures
        compare_bytes_from(y, x, i) == reversed(compare_bytes_from(x, y, i)),
    decreases x.len() - i,
{
    if i < x.len() && i < y.len() && x[i] == y[i] {
        lemma_bytes_flip(x, y, i + 1);
    }
}

/// Two values compared the other way round stand the other way round.
pub proof fn lemma_values_flip(a: Option<BsonView>, b: Option<BsonView>)
    ensures
        order_values(b, a) == reversed(order_values(a, b)),
{
    if type_rank(a) == type_rank(b) {
        match (a, b) {
            (Some(x), Some(y)) => {
                if is_number(x) && is_number(y) {
                } else {
                    match (x, y) {
                        (BsonView::String(p), BsonView::String(q)) => {
                            lemma_bytes_flip(
                                vstd::utf8::encode_utf8(p),
                                vstd::utf8::encode_utf8(q),
                                0,
                            );
                        },
                        _ => {},
                    }
                }
            },
            _ => {},
        }
    }
}

/// Two documents compared the other way round stand the other way round.
pub proof fn lemma_documents_flip(a: DocView, b: DocView, s: DocView, i: int)
    ensures
        compare_documents(b, a, s, i) == reversed(compare_documents(a, b, s, i)),
    decreases s.len() - i,
{
    if 0 <= i < s.len() {
        lemma_values_flip(lookup(a, s[i].0), lookup(b, s[i].0));
        lemma_documents_flip(a, b, s, i + 1);
    }
}

/// Whether the first of two documents does not stand behind the second
/// in the order of a sort document.
#[verifier::opaque]
pub open spec fn not_after(a: DocView, b: DocView, s: DocView) -> bool {
    compare_documents(a, b, s, 0) != Comparison::Greater
}

/// Whether no document of a list is followed by one that stands before
/// it in the order of a sort document.
pub open spec fn in_order(x: Seq<DocView>, s: DocView) -> bool {
    forall|i: int| 0 <= i < x.len() - 1 ==> not_after(#[trigger] x[i], x[i + 1], s)
}

/// How the last document of a list and a new one stand to each other
/// decides where the new one goes.
proof fn lemma_insert_step(sorted: Seq<DocView>, d: DocView, s: DocView)
    requires
        sorted.len() > 0,
    ensures
        not_after(sorted.last(), d, s) ==> insert_sorted(sorted, d, s) == sorted.push(d),
        !not_after(sorted.last(), d, s) ==> insert_sorted(sorted, d, s) == insert_sorted(
            sorted.drop_last(),
            d,
            s,
        ).push(sorted.last()) && not_after(d, sorted.last(), s),
{
    reveal(not_after);
    lemma_documents_flip(sorted.last(), d, s, 0);
}

/// A list in order with one more document is in order, and the new
/// document stands last or before the document that stands last.
pub proof fn lemma_insert_keeps_order(sorted: Seq<DocView>, d: DocView, s: DocView)
    requires
        in_order(sorted, s),
    ensures
        in_order(insert_sorted(sorted, d, s), s),
        insert_sorted(sorted, d, s).len() == sorted.len() + 1,
        insert_sorted(sorted, d, s).last() == d || (sorted.len() > 0 && insert_sorted(
            sorted,
            d,
            s,
        ).last() == sorted.last() && not_after(d, sorted.last(), s)),
    decreases sorted.len(),
{
    let r = insert_sorted(sorted, d, s);
    if sorted.len() == 0 {
        assert(r == sorted.push(d));
    } else {
        lemma_insert_step(sorted, d, s);
        let last = sorted.last();
        if not_after(last, d, s) {
            assert(r == sorted.push(d));
            assert forall|i: int| 0 <= i < r.len() - 1 implies not_after(
                #[trigger] r[i],
                r[i + 1],
                s,
            ) by {
                if i < sorted.len() - 1 {
                    assert(r[i] == sorted[i] && r[i + 1] == sorted[i + 1]);
                    assert(not_after(sorted[i], sorted[i + 1], s));
                } else {
                    assert(r[i] == last && r[i + 1] == d);
                }
            }
        } else {
            let front = sorted.drop_last();
            assert forall|i: int| 0 <= i < front.len() - 1 implies not_after(
                #[trigger] front[i],
                front[i + 1],
                s,
            ) by {
                assert(front[i] == sorted[i] && front[i + 1] == sorted[i + 1]);
                assert(not_after(sorted[i], sorted[i + 1], s));
            }
            lemma_insert_keeps_order(front, d, s);
            let y = insert_sorted(front, d, s);
            assert(r == y.push(last));
            assert forall|i: int| 0 <= i < r.len() - 1 implies not_after(
                #[trigger] r[i],
                r[i + 1],
                s,
            ) by {
                if i < y.len() - 1 {
                    assert(r[i] == y[i] && r[i + 1] == y[i + 1]);
                    assert(not_after(y[i], y[i + 1], s));
                } else {
                    assert(r[i] == y.last() && r[i + 1] == last);
                    if y.last() != d {
                        assert(front.len() > 0);
                        assert(y.last() == front.last());
                        let k = sorted.len() - 2;
                        assert(front.last() == sorted[k]);
                        assert(last == sorted[k + 1]);
                        assert(not_after(sorted[k], sorted[k + 1], s));
                    }
                }
            }
        }
    }
}

/// The sorted list is in order.
pub proof fn lemma_sort_is_in_order(docs: Seq<DocView>, s: DocView, n: int)
    requires
        0 <= n <= docs.len(),
    ensures
        in_order(sorted_prefix(docs, s, n), s),
    decreases n,
{
    if n > 0 {
        lemma_sort_is_in_order(docs, s, n - 1);
        lemma_insert_keeps_order(sorted_prefix(docs, s, n - 1), docs[n - 1], s);
    }
}

/// What a sort stage gives is a rearrangement of what it was given, in
/// the order of its sort document.
pub proof fn lemma_sort(s: DocView, docs: Seq<DocView>)
    ensures
        match run_sort(Some(BsonView::Document(s)), docs) {
            Ok(sorted) => sorted.to_multiset() == docs.to_multiset() && sorted.len()
                == docs.len() && in_order(sorted, s),
            Err(_) => true,
        },
{
    lemma_sort_is_permutation(docs, s, docs.len() as int);
    lemma_sort_is_in_order(docs, s, docs.len() as int);
    assert(docs.take(docs.len() as int) =~= docs);
}

} // verus!
