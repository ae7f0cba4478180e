//! Collections of documents in memory: what finding, inserting, updating,
//! deleting and counting mean, whatever backend holds the documents.

use crate::aggregation::{
    at_most, copy_range, match_documents, match_stage, project_documents, run_project, run_sort,
    sort_documents, AggregationError,
};
use crate::bson::{
    docs_view, has_key, lemma_view_document, lookup, str_eq, with_entry, Bson, BsonView, DocView,
    Document,
};
use crate::filter::{
    document_matches, first_failure, is_operator_doc, is_operator_document, is_operator_name,
    matches_filter, select, starts_with_dollar, FilterError,
};
use crate::update::{apply_update, updated, UpdateError};
use vstd::prelude::*;

verus! {

/// Why an operation on a collection failed.
#[derive(Debug, Clone, Copy, PartialEq, Eq, Structural)]
pub enum StorageError {
    /// The filter cannot be evaluated.
    Filter(FilterError),
    /// The update cannot be applied.
    Update(UpdateError),
    /// The sort or the projection cannot be applied.
    Aggregation(AggregationError),
}

/// What an update has done.
#[derive(Debug, PartialEq)]
pub struct UpdateResult {
    /// Documents that the filter selected.
    pub matched: usize,
    /// Documents that the update changed.
    pub modified: usize,
    /// The `_id` of the document that was inserted, where none was selected
    /// and the update asked for an insert.
    pub upserted_id: Option<Bson>,
}

/// A document as it is stored: with a fresh object id as `_id`, in front,
/// where it has no `_id` of its own.
pub open spec fn with_id(doc: DocView, fresh: Seq<u8>) -> DocView {
    if has_key(doc, "_id"@) {
        doc
    } else {
        seq![("_id"@, BsonView::ObjectId(fresh))] + doc
    }
}

/// The `_id` of a document as it is stored.
pub open spec fn stored_id(doc: DocView, fresh: Seq<u8>) -> BsonView {
    match lookup(doc, "_id"@) {
        Some(v) => v,
        None => BsonView::ObjectId(fresh),
    }
}

/// Gives a document a fresh object id as `_id`, in front, where it has no
/// `_id` of its own. Returns a copy of the `_id`.
pub fn ensure_id(doc: &mut Document, fresh: [u8; 12]) -> (id: Bson)
    ensures
        final(doc)@ == with_id(old(doc)@, fresh@),
        id@ == stored_id(old(doc)@, fresh@),
{
    match doc.get("_id") {
        Some(v) => v.clone_value(),
        None => {
            doc.entries.insert(0, ("_id".to_owned(), Bson::ObjectId(fresh)));
            assert(doc@ =~= seq![("_id"@, BsonView::ObjectId(fresh@))] + old(doc)@);
            Bson::ObjectId(fresh)
        },
    }
}

/// Stores a document at the end of a collection, with a fresh object id as
/// `_id` where it has none of its own. Returns a copy of the `_id`.
pub fn insert_document(docs: &mut Vec<Document>, doc: Document, fresh: [u8; 12]) -> (id: Bson)
    ensures
        docs_view(final(docs)@) == docs_view(old(docs)@).push(with_id(doc@, fresh@)),
        id@ == stored_id(doc@, fresh@),
{
    let mut doc = doc;
    let id = ensure_id(&mut doc, fresh);
    docs.push(doc);
    assert(docs_view(docs@) =~= docs_view(old(docs)@).push(doc@));
    id
}

/// The documents of a collection that a query returns: those that the
/// filter selects, in the order of the sort where there is one, without the
/// first `skip` of them, at most `limit` of them where there is a limit,
/// each as the projection leaves it where there is one.
pub open spec fn found(
    docs: Seq<DocView>,
    filter: DocView,
    sort: Option<DocView>,
    skip: usize,
    limit: Option<usize>,
    projection: Option<DocView>,
) -> Result<Seq<DocView>, StorageError> {
    match match_stage(filter, docs) {
        Err(e) => Err(StorageError::Aggregation(e)),
        Ok(m) => {
            let sorted = match sort {
                Some(s) => run_sort(Some(BsonView::Document(s)), m),
                None => Ok(m),
            };
            match sorted {
                Err(e) => Err(StorageError::Aggregation(e)),
                Ok(s) => {
                    let from = if skip < s.len() {
                        skip as int
                    } else {
                        s.len() as int
                    };
                    let rest = s.skip(from);
                    let page = match limit {
                        Some(n) => if n < rest.len() {
                            rest.take(n as int)
                        } else {
                            rest
                        },
                        None => rest,
                    };
                    match projection {
                        Some(p) => match run_project(Some(BsonView::Document(p)), page) {
                            Ok(x) => Ok(x),
                            Err(e) => Err(StorageError::Aggregation(e)),
                        },
                        None => Ok(page),
                    }
                },
            }
        },
    }
}

/// Documents that an operation returns agree with what the model says.
pub open spec fn documents_agree(
    r: Result<Vec<Document>, StorageError>,
    m: Result<Seq<DocView>, StorageError>,
) -> bool {
    match r {
        Ok(out) => m == Ok::<Seq<DocView>, StorageError>(docs_view(out@)),
        Err(e) => m == Err::<Seq<DocView>, StorageError>(e),
    }
}

/// The model of a document that may be missing.
pub open spec fn maybe_doc(d: Option<&Document>) -> Option<DocView> {
    match d {
        Some(x) => Some(x@),
        None => None,
    }
}

/// Runs a query on a collection.
pub fn find_documents(
    docs: &Vec<Document>,
    filter: &Document,
    sort: Option<&Document>,
    skip: usize,
    limit: Option<usize>,
    projection: Option<&Document>,
) -> (r: Result<Vec<Document>, StorageError>)
    ensures
        documents_agree(
            r,
            found(docs_view(docs@), filter@, maybe_doc(sort), skip, limit, maybe_doc(projection)),
        ),
{
    let matched = match match_documents(docs, filter) {
        Ok(m) => m,
        Err(e) => {
            return Err(StorageError::Aggregation(e));
        },
    };
    let sorted = match sort {
        Some(s) => match sort_documents(&matched, s) {
            Ok(x) => x,
            Err(e) => {
                return Err(StorageError::Aggregation(e));
            },
        },
        None => matched,
    };
    let from = if skip < sorted.len() {
        skip
    } else {
        sorted.len()
    };
    let to = match limit {
        Some(n) => if n < sorted.len() - from {
            from + n
        } else {
            sorted.len()
        },
        None => sorted.len(),
    };
    let page = copy_range(&sorted, from, to);
    proof {
        let s = docs_view(sorted@);
        let rest = s.skip(from as int);
        assert(s.subrange(from as int, to as int) =~= (match limit {
            Some(n) => if n < rest.len() {
                rest.take(n as int)
            } else {
                rest
            },
            None => rest,
        }));
    }
    match projection {
        Some(p) => match project_documents(&page, p) {
            Ok(x) => Ok(x),
            Err(e) => Err(StorageError::Aggregation(e)),
        },
        None => Ok(page),
    }
}

/// The number of documents that a filter selects.
pub open spec fn counted(docs: Seq<DocView>, filter: DocView) -> Result<nat, StorageError> {
    match match_stage(filter, docs) {
        Ok(m) => Ok(m.len()),
        Err(e) => Err(StorageError::Aggregation(e)),
    }
}

/// Counts the documents of a collection that a filter selects.
pub fn count_documents(docs: &Vec<Document>, filter: &Document) -> (r: Result<usize, StorageError>)
    ensures
        match r {
            Ok(n) => counted(docs_view(docs@), filter@) == Ok::<nat, StorageError>(n as nat),
            Err(e) => counted(docs_view(docs@), filter@) == Err::<nat, StorageError>(e),
        },
{
    match match_documents(docs, filter) {
        Ok(m) => {
            assert(docs_view(m@).len() == m@.len());
            Ok(m.len())
        },
        Err(e) => Err(StorageError::Aggregation(e)),
    }
}

/// `x + 1` where `hit`, `x` otherwise.
pub open spec fn plus(x: nat, hit: bool) -> nat {
    if hit {
        x + 1
    } else {
        x
    }
}

/// What an update makes of the documents from index `i` on, given the
/// documents `acc` that it has made of those before, of which it selected
/// `matched` and changed `modified`. Every document that the filter
/// selects is updated; only the first one where `multi` is not set.
pub open spec fn update_from(
    docs: Seq<DocView>,
    filter: DocView,
    update: DocView,
    multi: bool,
    i: int,
    acc: Seq<DocView>,
    matched: nat,
    modified: nat,
) -> Result<(Seq<DocView>, nat, nat), StorageError>
    decreases docs.len() - i,
{
    if i < 0 || i >= docs.len() {
        Ok((acc, matched, modified))
    } else if !multi && matched >= 1 {
        update_from(docs, filter, update, multi, i + 1, acc.push(docs[i]), matched, modified)
    } else {
        match matches_filter(filter, docs[i]) {
            Err(e) => Err(StorageError::Filter(e)),
            Ok(hit) => if !hit {
                update_from(docs, filter, update, multi, i + 1, acc.push(docs[i]), matched, modified)
            } else {
                match updated(docs[i], update) {
                    Err(e) => Err(StorageError::Update(e)),
                    Ok(n) => update_from(
                        docs,
                        filter,
                        update,
                        multi,
                        i + 1,
                        acc.push(n),
                        matched + 1,
                        plus(modified, n != docs[i]),
                    ),
                }
            },
        }
    }
}

/// The value that a condition of a filter fixes for its field: the value
/// itself, or the argument of the first `$eq` among its operators.
pub open spec fn fixed_value(v: BsonView) -> Option<BsonView> {
    if is_operator_doc(v) {
        lookup(v->Document_0, "$eq"@)
    } else {
        Some(v)
    }
}

/// The document that the conditions of a filter from index `i` on fix:
/// every field that a condition fixes to a value, with that value.
pub open spec fn seed_from(filter: DocView, i: int, acc: DocView) -> DocView
    decreases filter.len() - i,
{
    if i < 0 || i >= filter.len() {
        acc
    } else if is_operator_name(filter[i].0) {
        seed_from(filter, i + 1, acc)
    } else {
        match fixed_value(filter[i].1) {
            Some(v) => seed_from(filter, i + 1, with_entry(acc, filter[i].0, v)),
            None => seed_from(filter, i + 1, acc),
        }
    }
}

/// The document that an update inserts where it selects none and is asked
/// to: the document that the filter fixes, updated, with a fresh object id
/// as `_id` where it has none.
pub open spec fn upserted(filter: DocView, update: DocView, fresh: Seq<u8>) -> Result<
    DocView,
    StorageError,
> {
    match updated(seed_from(filter, 0, Seq::empty()), update) {
        Ok(d) => Ok(with_id(d, fresh)),
        Err(e) => Err(StorageError::Update(e)),
    }
}

/// What an update makes of a collection: the documents afterwards, how
/// many were selected, how many were changed, and the `_id` of the
/// document that was inserted.
pub open spec fn update_outcome(
    docs: Seq<DocView>,
    filter: DocView,
    update: DocView,
    multi: bool,
    upsert: bool,
    fresh: Seq<u8>,
) -> Result<(Seq<DocView>, nat, nat, Option<BsonView>), StorageError> {
    match update_from(docs, filter, update, multi, 0, Seq::empty(), 0, 0) {
        Err(e) => Err(e),
        Ok((after, matched, modified)) => if matched == 0 && upsert {
            match upserted(filter, update, fresh) {
                Err(e) => Err(e),
                Ok(d) => Ok(
                    (after.push(d), matched, modified, Some(stored_id(d, fresh))),
                ),
            }
        } else {
            Ok((after, matched, modified, None))
        },
    }
}

/// The document that the conditions of a filter fix.
pub fn seed_document(filter: &Document) -> (r: Document)
    ensures
        r@ == seed_from(filter@, 0, Seq::empty()),
{
    let mut out = Document::new();
    let mut i: usize = 0;
    while i < filter.len()
        invariant
            i <= filter@.len(),
            seed_from(filter@, i as int, out@) == seed_from(filter@, 0, Seq::empty()),
        decreases filter@.len() - i,
    {
        let key = filter.key_at(i);
        let v = filter.value_at(i);
        if !starts_with_dollar(key) {
            if is_operator_document(v) {
                match v {
                    Bson::Document(ops) => {
                        proof {
                            lemma_view_document(*ops);
                        }
                        match ops.get("$eq") {
                            Some(x) => {
                                out.insert(key, x.clone_value());
                            },
                            None => {},
                        }
                    },
                    _ => {},
                }
            } else {
                out.insert(key, v.clone_value());
            }
        }
        i = i + 1;
    }
    out
}

/// The model of a value that may be missing.
pub open spec fn maybe_value(v: Option<Bson>) -> Option<BsonView> {
    match v {
        Some(x) => Some(x@),
        None => None,
    }
}

/// Updates the documents of a collection that a filter selects: all of
/// them where `multi` is set, the first one otherwise. Where none is
/// selected and `upsert` is set, a document made of the filter and the
/// update is inserted. Where the filter or the update cannot be applied,
/// the collection stays as it is.
#[verifier::loop_isolation(false)]
pub fn update_documents(
    docs: &mut Vec<Document>,
    filter: &Document,
    update: &Document,
    multi: bool,
    upsert: bool,
    fresh: [u8; 12],
) -> (r: Result<UpdateResult, StorageError>)
    ensures
        match r {
            Ok(u) => update_outcome(docs_view(old(docs)@), filter@, update@, multi, upsert, fresh@)
                == Ok::<(Seq<DocView>, nat, nat, Option<BsonView>), StorageError>(
                (
                    docs_view(final(docs)@),
                    u.matched as nat,
                    u.modified as nat,
                    maybe_value(u.upserted_id),
                ),
            ),
            Err(e) => update_outcome(
                docs_view(old(docs)@),
                filter@,
                update@,
                multi,
                upsert,
                fresh@,
            ) == Err::<(Seq<DocView>, nat, nat, Option<BsonView>), StorageError>(e) && final(docs)@
                == old(docs)@,
        },
{
    let ghost dv = docs_view(docs@);
    let mut out: Vec<Document> = Vec::new();
    let mut matched: usize = 0;
    let mut modified: usize = 0;
    let mut i: usize = 0;
    assert(docs_view(out@) =~= Seq::<DocView>::empty());
    while i < docs.len()
        invariant
            i <= docs.len(),
            docs@ == old(docs)@,
            out@.len() == i,
            matched <= i,
            modified <= i,
            update_from(
                dv,
                filter@,
                update@,
                multi,
                i as int,
                docs_view(out@),
                matched as nat,
                modified as nat,
            ) == update_from(dv, filter@, update@, multi, 0, Seq::empty(), 0, 0),
        decreases docs.len() - i,
    {
        let ghost before = docs_view(out@);
        let d = &docs[i];
        if !multi && matched >= 1 {
            out.push(d.clone_document());
            assert(docs_view(out@) =~= before.push(d@));
        } else {
            let hit = match document_matches(filter, d) {
                Ok(h) => h,
                Err(e) => {
                    return Err(StorageError::Filter(e));
                },
            };
            if !hit {
                out.push(d.clone_document());
                assert(docs_view(out@) =~= before.push(d@));
            } else {
                let n = match apply_update(d, update) {
                    Ok(n) => n,
                    Err(e) => {
                        return Err(StorageError::Update(e));
                    },
                };
                let changed = !n.equals(d);
                matched = matched + 1;
                if changed {
                    modified = modified + 1;
                }
                out.push(n);
                assert(docs_view(out@) =~= before.push(n@));
            }
        }
        i = i + 1;
    }
    if matched == 0 && upsert {
        let seed = seed_document(filter);
        let mut d = match apply_update(&seed, update) {
            Ok(d) => d,
            Err(e) => {
                return Err(StorageError::Update(e));
            },
        };
        let id = ensure_id(&mut d, fresh);
        let ghost before = docs_view(out@);
        proof {
            lemma_stored_id(seed@, update@, fresh@);
        }
        out.push(d);
        assert(docs_view(out@) =~= before.push(d@));
        *docs = out;
        return Ok(UpdateResult { matched, modified, upserted_id: Some(id) });
    }
    *docs = out;
    Ok(UpdateResult { matched, modified, upserted_id: None })
}

/// The `_id` of a document that has been given one is the `_id` that it
/// was given.
proof fn lemma_stored_id(seed: DocView, update: DocView, fresh: Seq<u8>)
    ensures
        updated(seed, update) matches Ok(d) ==> stored_id(with_id(d, fresh), fresh) == stored_id(
            d,
            fresh,
        ),
{
    match updated(seed, update) {
        Ok(d) => {
            if !has_key(d, "_id"@) {
                let w = with_id(d, fresh);
                assert(w[0].0 == "_id"@);
                assert(crate::bson::position(w, "_id"@) == 0);
            }
        },
        Err(_) => {},
    }
}

/// What a delete leaves of the documents from index `i` on, given the
/// documents `acc` that it has left of those before, of which it removed
/// `deleted`. Every document that the filter selects is removed; only the
/// first one where `multi` is not set.
pub open spec fn delete_from(
    docs: Seq<DocView>,
    filter: DocView,
    multi: bool,
    i: int,
    acc: Seq<DocView>,
    deleted: nat,
) -> Result<(Seq<DocView>, nat), StorageError>
    decreases docs.len() - i,
{
    if i < 0 || i >= docs.len() {
        Ok((acc, deleted))
    } else if !multi && deleted >= 1 {
        delete_from(docs, filter, multi, i + 1, acc.push(docs[i]), deleted)
    } else {
        match matches_filter(filter, docs[i]) {
            Err(e) => Err(StorageError::Filter(e)),
            Ok(hit) => if hit {
                delete_from(docs, filter, multi, i + 1, acc, deleted + 1)
            } else {
                delete_from(docs, filter, multi, i + 1, acc.push(docs[i]), deleted)
            },
        }
    }
}

/// Removes the documents of a collection that a filter selects: all of
/// them where `multi` is set, the first one otherwise. Returns how many
/// were removed. Where the filter cannot be evaluated, the collection
/// stays as it is.
#[verifier::loop_isolation(false)]
pub fn delete_documents(docs: &mut Vec<Document>, filter: &Document, multi: bool) -> (r: Result<
    usize,
    StorageError,
>)
    ensures
        match r {
            Ok(n) => delete_from(docs_view(old(docs)@), filter@, multi, 0, Seq::empty(), 0) == Ok::<
                (Seq<DocView>, nat),
                StorageError,
            >((docs_view(final(docs)@), n as nat)),
            Err(e) => delete_from(docs_view(old(docs)@), filter@, multi, 0, Seq::empty(), 0)
                == Err::<(Seq<DocView>, nat), StorageError>(e) && final(docs)@ == old(docs)@,
        },
{
    let ghost dv = docs_view(docs@);
    let mut out: Vec<Document> = Vec::new();
    let mut deleted: usize = 0;
    let mut i: usize = 0;
    assert(docs_view(out@) =~= Seq::<DocView>::empty());
    while i < docs.len()
        invariant
            i <= docs.len(),
            docs@ == old(docs)@,
            deleted <= i,
            delete_from(dv, filter@, multi, i as int, docs_view(out@), deleted as nat)
                == delete_from(dv, filter@, multi, 0, Seq::empty(), 0),
        decreases docs.len() - i,
    {
        let ghost before = docs_view(out@);
        let d = &docs[i];
        if !multi && deleted >= 1 {
            out.push(d.clone_document());
            assert(docs_view(out@) =~= before.push(d@));
        } else {
            let hit = match document_matches(filter, d) {
                Ok(h) => h,
                Err(e) => {
                    return Err(StorageError::Filter(e));
                },
            };
            if hit {
                deleted = deleted + 1;
            } else {
                out.push(d.clone_document());
                assert(docs_view(out@) =~= before.push(d@));
            }
        }
        i = i + 1;
    }
    *docs = out;
    Ok(deleted)
}

} // verus!
