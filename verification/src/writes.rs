//! Batches of writes: what the inserts, updates and deletes of one command
//! do to a collection, and what the command reports of them.
//!
//! The writes of a batch run in the order in which they are given. A write
//! that fails is reported under its index. A batch that is ordered stops
//! at its first write that fails; one that is not ordered tries them all.

use crate::aggregation::count_value;
use crate::bson::{
    docs_view, has_key, lemma_view_array, lemma_view_document, lookup, values_view, Bson, BsonView,
    DocView, Document,
};
use crate::mongodb_commands::{OK_ONE};
use crate::storage::{
    delete_documents, delete_from, insert_document, stored_id, update_documents, update_outcome,
    with_id, StorageError, UpdateResult,
};
use crate::store::{object_id_bytes, ObjectIdGenerator};
use vstd::prelude::*;

verus! {

/// Code of a write that is not a document, or lacks a part it needs.
pub const CODE_TYPE_MISMATCH: i32 = 14;

/// Code of a write whose filter or update cannot be applied.
pub const CODE_BAD_WRITE: i32 = 2;

/// What a batch of writes has done.
#[derive(Debug)]
pub struct WriteOutcome {
    /// Documents inserted, selected by updates or upserted, or deleted.
    pub n: usize,
    /// Documents that updates have changed.
    pub n_modified: usize,
    /// For each update that inserted a document: its index and the `_id`
    /// of the document.
    pub upserted: Vec<(usize, Bson)>,
    /// For each write that failed: its index and the code of its error.
    pub errors: Vec<(usize, i32)>,
}

/// Model of what a batch of writes has done.
pub struct WriteSummary {
    pub n: nat,
    pub n_modified: nat,
    pub upserted: Seq<(int, BsonView)>,
    pub errors: Seq<(int, i32)>,
}

impl View for WriteOutcome {
    type V = WriteSummary;

    open spec fn view(&self) -> WriteSummary {
        WriteSummary {
            n: self.n as nat,
            n_modified: self.n_modified as nat,
            upserted: Seq::new(
                self.upserted@.len(),
                |i: int| (self.upserted@[i].0 as int, self.upserted@[i].1@),
            ),
            errors: Seq::new(
                self.errors@.len(),
                |i: int| (self.errors@[i].0 as int, self.errors@[i].1),
            ),
        }
    }
}

/// A batch that has done nothing yet.
pub open spec fn no_writes() -> WriteSummary {
    WriteSummary { n: 0, n_modified: 0, upserted: Seq::empty(), errors: Seq::empty() }
}

/// The generator after it has handed out one id.
pub open spec fn advanced(g: ObjectIdGenerator) -> ObjectIdGenerator {
    ObjectIdGenerator {
        timestamp: g.timestamp,
        process: g.process,
        counter: ((g.counter + 1) % 0x1000000) as u32,
    }
}

/// The state of a batch: the documents of the collection, the generator
/// of object ids, and what has been done.
pub struct BatchState {
    pub docs: Seq<DocView>,
    pub ids: ObjectIdGenerator,
    pub summary: WriteSummary,
}

/// The summary with one more write that failed.
pub open spec fn with_error(s: WriteSummary, index: int, code: i32) -> WriteSummary {
    WriteSummary { errors: s.errors.push((index, code)), ..s }
}

/// What the inserts of `items` from index `i` on make of a batch. An item
/// that is no document fails; a document is stored at the end of the
/// collection, with a fresh object id where it has no `_id`.
pub open spec fn insert_from(items: Seq<BsonView>, ordered: bool, i: int, b: BatchState) -> BatchState
    decreases items.len() - i,
{
    if i < 0 || i >= items.len() {
        b
    } else {
        match items[i] {
            BsonView::Document(d) => insert_from(
                items,
                ordered,
                i + 1,
                BatchState {
                    docs: b.docs.push(with_id(d, object_id_bytes(b.ids))),
                    ids: if has_key(d, "_id"@) {
                        b.ids
                    } else {
                        advanced(b.ids)
                    },
                    summary: WriteSummary { n: b.summary.n + 1, ..b.summary },
                },
            ),
            _ => {
                let failed = BatchState {
                    summary: with_error(b.summary, i, CODE_TYPE_MISMATCH),
                    ..b
                };
                if ordered {
                    failed
                } else {
                    insert_from(items, ordered, i + 1, failed)
                }
            },
        }
    }
}

/// The boolean under `key`, `false` where there is none.
pub open spec fn flag_of(d: DocView, key: Seq<char>) -> bool {
    lookup(d, key) == Some(BsonView::Boolean(true))
}

/// What one update, written as `{q, u, multi, upsert}`, makes of a batch.
/// Returns the batch and whether the update failed.
pub open spec fn update_one(spec: BsonView, index: int, b: BatchState) -> (BatchState, bool) {
    match spec {
        BsonView::Document(s) => match (lookup(s, "q"@), lookup(s, "u"@)) {
            (Some(BsonView::Document(q)), Some(BsonView::Document(u))) => {
                match update_outcome(
                    b.docs,
                    q,
                    u,
                    flag_of(s, "multi"@),
                    flag_of(s, "upsert"@),
                    object_id_bytes(b.ids),
                ) {
                    Err(_) => (
                        BatchState { summary: with_error(b.summary, index, CODE_BAD_WRITE), ..b },
                        true,
                    ),
                    Ok((docs, matched, modified, upserted)) => (
                        BatchState {
                            docs,
                            ids: if upserted.is_some() {
                                advanced(b.ids)
                            } else {
                                b.ids
                            },
                            summary: WriteSummary {
                                n: sum_counts(
                                    b.summary.n,
                                    sum_counts(
                                        matched,
                                        if upserted.is_some() {
                                            1nat
                                        } else {
                                            0nat
                                        },
                                    ),
                                ),
                                n_modified: sum_counts(b.summary.n_modified, modified),
                                upserted: match upserted {
                                    Some(id) => b.summary.upserted.push((index, id)),
                                    None => b.summary.upserted,
                                },
                                errors: b.summary.errors,
                            },
                        },
                        false,
                    ),
                }
            },
            _ => (
                BatchState { summary: with_error(b.summary, index, CODE_TYPE_MISMATCH), ..b },
                true,
            ),
        },
        _ => (BatchState { summary: with_error(b.summary, index, CODE_TYPE_MISMATCH), ..b }, true),
    }
}

/// What the updates of `specs` from index `i` on make of a batch.
pub open spec fn update_batch_from(specs: Seq<BsonView>, ordered: bool, i: int, b: BatchState) -> BatchState
    decreases specs.len() - i,
{
    if i < 0 || i >= specs.len() {
        b
    } else {
        let (next, failed) = update_one(specs[i], i, b);
        if failed && ordered {
            next
        } else {
            update_batch_from(specs, ordered, i + 1, next)
        }
    }
}

/// Whether a delete, written as `{q, limit}`, removes every document that
/// its filter selects: it does unless its limit is one.
pub open spec fn deletes_all(s: DocView) -> bool {
    !(lookup(s, "limit"@) == Some(BsonView::Int32(1)) || lookup(s, "limit"@) == Some(
        BsonView::Int64(1),
    ))
}

/// What one delete makes of a batch. Returns the batch and whether the
/// delete failed.
pub open spec fn delete_one(spec: BsonView, index: int, b: BatchState) -> (BatchState, bool) {
    match spec {
        BsonView::Document(s) => match lookup(s, "q"@) {
            Some(BsonView::Document(q)) => match delete_from(
                b.docs,
                q,
                deletes_all(s),
                0,
                Seq::empty(),
                0,
            ) {
                Err(_) => (
                    BatchState { summary: with_error(b.summary, index, CODE_BAD_WRITE), ..b },
                    true,
                ),
                Ok((docs, n)) => (
                    BatchState {
                        docs,
                        ids: b.ids,
                        summary: WriteSummary { n: sum_counts(b.summary.n, n), ..b.summary },
                    },
                    false,
                ),
            },
            _ => (
                BatchState { summary: with_error(b.summary, index, CODE_TYPE_MISMATCH), ..b },
                true,
            ),
        },
        _ => (BatchState { summary: with_error(b.summary, index, CODE_TYPE_MISMATCH), ..b }, true),
    }
}

/// What the deletes of `specs` from index `i` on make of a batch.
pub open spec fn delete_batch_from(specs: Seq<BsonView>, ordered: bool, i: int, b: BatchState) -> BatchState
    decreases specs.len() - i,
{
    if i < 0 || i >= specs.len() {
        b
    } else {
        let (next, failed) = delete_one(specs[i], i, b);
        if failed && ordered {
            next
        } else {
            delete_batch_from(specs, ordered, i + 1, next)
        }
    }
}

/// The state of a batch before its first write.
pub open spec fn initial_batch(docs: Seq<Document>, ids: ObjectIdGenerator) -> BatchState {
    BatchState { docs: docs_view(docs), ids, summary: no_writes() }
}

/// `a + b`, or the largest count where the sum lies beyond it.
pub open spec fn sum_counts(a: nat, b: nat) -> nat {
    if a + b > usize::MAX {
        usize::MAX as nat
    } else {
        a + b
    }
}

/// The state of a batch as the executable code holds it.
pub open spec fn batch_state(docs: Seq<Document>, ids: ObjectIdGenerator, o: WriteOutcome) -> BatchState {
    BatchState { docs: docs_view(docs), ids, summary: o@ }
}

impl WriteOutcome {
    /// The outcome of a batch that has done nothing yet.
    pub fn new() -> (r: Self)
        ensures
            r@ == no_writes(),
    {
        let r = WriteOutcome { n: 0, n_modified: 0, upserted: Vec::new(), errors: Vec::new() };
        assert(r@.upserted =~= Seq::empty());
        assert(r@.errors =~= Seq::empty());
        r
    }

    /// Notes a write that failed.
    pub fn push_error(&mut self, index: usize, code: i32)
        ensures
            final(self)@ == with_error(old(self)@, index as int, code),
    {
        self.errors.push((index, code));
        assert(self@.errors =~= old(self)@.errors.push((index as int, code)));
        assert(self@.upserted =~= old(self)@.upserted);
    }
}

/// `a + b`, or the top of the range where the sum lies beyond it.
fn add_counts(a: usize, b: usize) -> (r: usize)
    ensures
        r == sum_counts(a as nat, b as nat),
{
    if a > usize::MAX - b {
        usize::MAX
    } else {
        a + b
    }
}

/// Runs the inserts of a batch on a collection.
#[verifier::loop_isolation(false)]
pub fn apply_inserts(
    docs: &mut Vec<Document>,
    items: &Vec<Bson>,
    ordered: bool,
    ids: &mut ObjectIdGenerator,
) -> (r: WriteOutcome)
    requires
        old(ids).counter < 0x1000000,
    ensures
        final(ids).counter < 0x1000000,
        batch_state(final(docs)@, *final(ids), r) == insert_from(
            values_view(items@),
            ordered,
            0,
            initial_batch(old(docs)@, *old(ids)),
        ),
{
    let ghost iv = values_view(items@);
    let ghost start = initial_batch(docs@, *ids);
    let mut out = WriteOutcome::new();
    let mut i: usize = 0;
    while i < items.len()
        invariant
            i <= items.len(),
            ids.counter < 0x1000000,
            out.n <= i,
            insert_from(iv, ordered, i as int, batch_state(docs@, *ids, out)) == insert_from(
                iv,
                ordered,
                0,
                start,
            ),
        decreases items.len() - i,
    {
        match &items[i] {
            Bson::Document(d) => {
                proof {
                    lemma_view_document(*d);
                }
                let ghost before = *ids;
                let ghost summary = out@;
                let fresh: [u8; 12] = if d.contains_key("_id") {
                    let mut peek = *ids;
                    peek.next()
                } else {
                    ids.next()
                };
                let _ = insert_document(docs, d.clone_document(), fresh);
                out.n = out.n + 1;
                assert(out@ == (WriteSummary { n: summary.n + 1, ..summary }));
                assert(*ids == (if has_key(d@, "_id"@) {
                    before
                } else {
                    advanced(before)
                }));
            },
            _ => {
                out.push_error(i, CODE_TYPE_MISMATCH);
                if ordered {
                    return out;
                }
            },
        }
        i = i + 1;
    }
    out
}

/// The boolean under `key`, `false` where there is none.
pub fn get_flag_or_false(d: &Document, key: &str) -> (r: bool)
    ensures
        r == flag_of(d@, key@),
{
    match d.get(key) {
        Some(Bson::Boolean(b)) => *b,
        _ => false,
    }
}

/// Runs the updates of a batch on a collection.
#[verifier::loop_isolation(false)]
pub fn apply_updates(
    docs: &mut Vec<Document>,
    specs: &Vec<Bson>,
    ordered: bool,
    ids: &mut ObjectIdGenerator,
) -> (r: WriteOutcome)
    requires
        old(ids).counter < 0x1000000,
    ensures
        final(ids).counter < 0x1000000,
        batch_state(final(docs)@, *final(ids), r) == update_batch_from(
            values_view(specs@),
            ordered,
            0,
            initial_batch(old(docs)@, *old(ids)),
        ),
{
    let ghost sv = values_view(specs@);
    let ghost start = initial_batch(docs@, *ids);
    let mut out = WriteOutcome::new();
    let mut i: usize = 0;
    while i < specs.len()
        invariant
            i <= specs.len(),
            ids.counter < 0x1000000,
            update_batch_from(sv, ordered, i as int, batch_state(docs@, *ids, out))
                == update_batch_from(sv, ordered, 0, start),
        decreases specs.len() - i,
    {
        let mut failed_code: Option<i32> = None;
        let ghost before_ids = *ids;
        let ghost before = out@;
        match &specs[i] {
            Bson::Document(s) => {
                proof {
                    lemma_view_document(*s);
                }
                match (s.get("q"), s.get("u")) {
                    (Some(Bson::Document(q)), Some(Bson::Document(u))) => {
                        proof {
                            lemma_view_document(*q);
                            lemma_view_document(*u);
                        }
                        let multi = get_flag_or_false(s, "multi");
                        let upsert = get_flag_or_false(s, "upsert");
                        let mut peek = *ids;
                        let fresh = peek.next();
                        match update_documents(docs, q, u, multi, upsert, fresh) {
                            Err(_) => {
                                failed_code = Some(CODE_BAD_WRITE);
                            },
                            Ok(res) => {
                                let UpdateResult { matched, modified, upserted_id } = res;
                                let extra: usize = if upserted_id.is_some() {
                                    1
                                } else {
                                    0
                                };
                                let total = add_counts(matched, extra);
                                let n = add_counts(out.n, total);
                                let m = add_counts(out.n_modified, modified);
                                out.n = n;
                                out.n_modified = m;
                                match upserted_id {
                                    Some(id) => {
                                        let _ = ids.next();
                                        out.upserted.push((i, id));
                                        assert(out@.upserted =~= before.upserted.push(
                                            (i as int, id@),
                                        ));
                                    },
                                    None => {
                                        assert(out@.upserted =~= before.upserted);
                                    },
                                }
                                assert(out@.errors =~= before.errors);
                            },
                        }
                    },
                    _ => {
                        failed_code = Some(CODE_TYPE_MISMATCH);
                    },
                }
            },
            _ => {
                failed_code = Some(CODE_TYPE_MISMATCH);
            },
        }
        match failed_code {
            Some(code) => {
                out.push_error(i, code);
                if ordered {
                    return out;
                }
            },
            None => {},
        }
        i = i + 1;
    }
    out
}

/// Runs the deletes of a batch on a collection.
#[verifier::loop_isolation(false)]
pub fn apply_deletes(docs: &mut Vec<Document>, specs: &Vec<Bson>, ordered: bool, ids: &ObjectIdGenerator) -> (r:
    WriteOutcome)
    ensures
        batch_state(final(docs)@, *ids, r) == delete_batch_from(
            values_view(specs@),
            ordered,
            0,
            initial_batch(old(docs)@, *ids),
        ),
{
    let ghost sv = values_view(specs@);
    let ghost start = initial_batch(docs@, *ids);
    let mut out = WriteOutcome::new();
    let mut i: usize = 0;
    while i < specs.len()
        invariant
            i <= specs.len(),
            delete_batch_from(sv, ordered, i as int, batch_state(docs@, *ids, out))
                == delete_batch_from(sv, ordered, 0, start),
        decreases specs.len() - i,
    {
        let mut failed_code: Option<i32> = None;
        let ghost before = out@;
        match &specs[i] {
            Bson::Document(s) => {
                proof {
                    lemma_view_document(*s);
                }
                match s.get("q") {
                    Some(Bson::Document(q)) => {
                        proof {
                            lemma_view_document(*q);
                        }
                        let one = match s.get("limit") {
                            Some(Bson::Int32(1)) => true,
                            Some(Bson::Int64(1)) => true,
                            _ => false,
                        };
                        match delete_documents(docs, q, !one) {
                            Err(_) => {
                                failed_code = Some(CODE_BAD_WRITE);
                            },
                            Ok(n) => {
                                let total = add_counts(out.n, n);
                                out.n = total;
                                assert(out@.upserted =~= before.upserted);
                                assert(out@.errors =~= before.errors);
                            },
                        }
                    },
                    _ => {
                        failed_code = Some(CODE_TYPE_MISMATCH);
                    },
                }
            },
            _ => {
                failed_code = Some(CODE_TYPE_MISMATCH);
            },
        }
        match failed_code {
            Some(code) => {
                out.push_error(i, code);
                if ordered {
                    return out;
                }
            },
            None => {},
        }
        i = i + 1;
    }
    out
}

/// What one item of `updates` asks for: the filter, the update, whether
/// every selected document is updated and whether a document is inserted
/// where none is selected. `None` where the item is no such request.
pub open spec fn update_request(spec: BsonView) -> Option<(DocView, DocView, bool, bool)> {
    match spec {
        BsonView::Document(s) => match (lookup(s, "q"@), lookup(s, "u"@)) {
            (Some(BsonView::Document(q)), Some(BsonView::Document(u))) => Some(
                (q, u, flag_of(s, "multi"@), flag_of(s, "upsert"@)),
            ),
            _ => None,
        },
        _ => None,
    }
}

/// What one item of `deletes` asks for: the filter, and whether every
/// selected document is removed. `None` where the item is no such
/// request.
pub open spec fn delete_request(spec: BsonView) -> Option<(DocView, bool)> {
    match spec {
        BsonView::Document(s) => match lookup(s, "q"@) {
            Some(BsonView::Document(q)) => Some((q, deletes_all(s))),
            _ => None,
        },
        _ => None,
    }
}

/// Reads one item of `updates`.
pub fn read_update(spec: &Bson) -> (r: Option<(Document, Document, bool, bool)>)
    ensures
        match r {
            Some((q, u, multi, upsert)) => update_request(spec@) == Some((q@, u@, multi, upsert)),
            None => update_request(spec@).is_none(),
        },
{
    match spec {
        Bson::Document(s) => {
            proof {
                lemma_view_document(*s);
            }
            match (s.get("q"), s.get("u")) {
                (Some(Bson::Document(q)), Some(Bson::Document(u))) => {
                    proof {
                        lemma_view_document(*q);
                        lemma_view_document(*u);
                    }
                    Some(
                        (
                            q.clone_document(),
                            u.clone_document(),
                            get_flag_or_false(s, "multi"),
                            get_flag_or_false(s, "upsert"),
                        ),
                    )
                },
                _ => None,
            }
        },
        _ => None,
    }
}

/// Reads one item of `deletes`.
pub fn read_delete(spec: &Bson) -> (r: Option<(Document, bool)>)
    ensures
        match r {
            Some((q, all)) => delete_request(spec@) == Some((q@, all)),
            None => delete_request(spec@).is_none(),
        },
{
    match spec {
        Bson::Document(s) => {
            proof {
                lemma_view_document(*s);
            }
            match s.get("q") {
                Some(Bson::Document(q)) => {
                    proof {
                        lemma_view_document(*q);
                    }
                    let one = match s.get("limit") {
                        Some(Bson::Int32(1)) => true,
                        Some(Bson::Int64(1)) => true,
                        _ => false,
                    };
                    Some((q.clone_document(), !one))
                },
                _ => None,
            }
        },
        _ => None,
    }
}

/// A count as a number in a response.
pub fn count_to_bson(n: usize) -> (r: Bson)
    ensures
        r@ == count_value(n as nat),
{
    if n <= 2147483647 {
        Bson::Int32(n as i32)
    } else {
        Bson::Int64(#[verifier::truncate] (n as i64))
    }
}

/// The description of a write that failed.
pub open spec fn write_error(index: int, code: i32) -> BsonView {
    BsonView::Document(
        seq![
            ("index"@, count_value(index as nat)),
            ("code"@, BsonView::Int32(code)),
            ("errmsg"@, BsonView::String("write failed"@)),
        ],
    )
}

/// The description of a document that an update inserted.
pub open spec fn upsert_note(index: int, id: BsonView) -> BsonView {
    BsonView::Document(seq![("index"@, count_value(index as nat)), ("_id"@, id)])
}

/// The response to a batch of writes: the number of documents written,
/// the number of documents changed where `with_modified` asks for it, the
/// documents that updates inserted and the writes that failed, each list
/// only where it is not empty, and `ok`.
pub open spec fn write_response(s: WriteSummary, with_modified: bool) -> DocView {
    let head = seq![("n"@, count_value(s.n))];
    let modified = if with_modified {
        seq![("nModified"@, count_value(s.n_modified))]
    } else {
        Seq::empty()
    };
    let upserted = if s.upserted.len() > 0 {
        seq![
            (
                "upserted"@,
                BsonView::Array(
                    Seq::new(
                        s.upserted.len(),
                        |i: int| upsert_note(s.upserted[i].0, s.upserted[i].1),
                    ),
                ),
            ),
        ]
    } else {
        Seq::empty()
    };
    let errors = if s.errors.len() > 0 {
        seq![
            (
                "writeErrors"@,
                BsonView::Array(
                    Seq::new(s.errors.len(), |i: int| write_error(s.errors[i].0, s.errors[i].1)),
                ),
            ),
        ]
    } else {
        Seq::empty()
    };
    head + modified + upserted + errors + seq![("ok"@, BsonView::Double(OK_ONE))]
}

/// Writes the response to a batch of writes.
pub fn build_write_response(o: &WriteOutcome, with_modified: bool) -> (doc: Document)
    ensures
        doc@ == write_response(o@, with_modified),
{
    let mut doc = Document::new();
    doc.push("n".to_owned(), count_to_bson(o.n));
    if with_modified {
        doc.push("nModified".to_owned(), count_to_bson(o.n_modified));
    }
    if o.upserted.len() > 0 {
        let mut notes: Vec<Bson> = Vec::new();
        let mut i: usize = 0;
        while i < o.upserted.len()
            invariant
                i <= o.upserted.len(),
                notes@.len() == i,
                forall|j: int|
                    0 <= j < i ==> notes@[j]@ == upsert_note(
                        o.upserted@[j].0 as int,
                        o.upserted@[j].1@,
                    ),
            decreases o.upserted.len() - i,
        {
            let mut note = Document::new();
            note.push("index".to_owned(), count_to_bson(o.upserted[i].0));
            note.push("_id".to_owned(), o.upserted[i].1.clone_value());
            proof {
                lemma_view_document(note);
                assert(note@ =~= seq![
                    ("index"@, count_value(o.upserted@[i as int].0 as nat)),
                    ("_id"@, o.upserted@[i as int].1@),
                ]);
            }
            notes.push(Bson::Document(note));
            i = i + 1;
        }
        proof {
            lemma_view_array(notes);
            assert(values_view(notes@) =~= Seq::new(
                o@.upserted.len(),
                |i: int| upsert_note(o@.upserted[i].0, o@.upserted[i].1),
            ));
        }
        doc.push("upserted".to_owned(), Bson::Array(notes));
    }
    if o.errors.len() > 0 {
        let mut list: Vec<Bson> = Vec::new();
        let mut i: usize = 0;
        while i < o.errors.len()
            invariant
                i <= o.errors.len(),
                list@.len() == i,
                forall|j: int|
                    0 <= j < i ==> list@[j]@ == write_error(o.errors@[j].0 as int, o.errors@[j].1),
            decreases o.errors.len() - i,
        {
            let mut e = Document::new();
            e.push("index".to_owned(), count_to_bson(o.errors[i].0));
            e.push("code".to_owned(), Bson::Int32(o.errors[i].1));
            e.push("errmsg".to_owned(), Bson::String("write failed".to_owned()));
            proof {
                lemma_view_document(e);
                assert(e@ =~= seq![
                    ("index"@, count_value(o.errors@[i as int].0 as nat)),
                    ("code"@, BsonView::Int32(o.errors@[i as int].1)),
                    ("errmsg"@, BsonView::String("write failed"@)),
                ]);
            }
            list.push(Bson::Document(e));
            i = i + 1;
        }
        proof {
            lemma_view_array(list);
            assert(values_view(list@) =~= Seq::new(
                o@.errors.len(),
                |i: int| write_error(o@.errors[i].0, o@.errors[i].1),
            ));
        }
        doc.push("writeErrors".to_owned(), Bson::Array(list));
    }
    doc.push("ok".to_owned(), Bson::Double(OK_ONE));
    assert(doc@ =~= write_response(o@, with_modified));
    doc
}

} // verus!
